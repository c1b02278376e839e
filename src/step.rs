//! One step of a subprogram: a description, a merge operator, and the state and
//! control conditions that gate it.
use vstd::prelude::*;
use crate::conditions::{
    IOElementCoditions, IOElementCoditionsMessage, apply_to_bucket, binding_message_ok, bucket_after,
};
use crate::io::{IOConfig, IOElement};
use crate::kinds::{FrameTypes, IOElementStates, Operators};

verus! {

/// A message that edits one step.
#[derive(Clone, Debug)]
pub enum SubprogramStepMessage {
    ChangeId(usize),
    DeleteStep,
    AddCondition(FrameTypes),
    DescriptionChanged(String),
    PickConditions(FrameTypes),
    IOElementCoditionsMessage(FrameTypes, usize, IOElementCoditionsMessage),
    OperatorSelected(Operators),
}

/// A binding as it is made: of the given frame, with no target, requiring any state.
pub open spec fn fresh_binding(frame: FrameTypes) -> IOElementCoditions {
    IOElementCoditions { element: None, state: IOElementStates::Any, frame_type: frame }
}

/// One step. `id` is its 1-based place in its subprogram, kept by the
/// subprogram.
#[derive(Clone, Debug, PartialEq, Eq)]
pub struct SubprogramStep {
    pub id: usize,
    pub descripton: String,
    pub merge_operator: Operators,
    pub state_conditions: Vec<IOElementCoditions>,
    pub control_conditions: Vec<IOElementCoditions>,
}

impl SubprogramStep {
    /// The bindings of one frame.
    pub open spec fn bucket(self, frame: FrameTypes) -> Seq<IOElementCoditions> {
        match frame {
            FrameTypes::State => self.state_conditions@,
            FrameTypes::Control => self.control_conditions@,
        }
    }

    /// `new` differs from `old` in the bindings of `frame` alone, which are `b`.
    pub open spec fn rebucketed(old: SubprogramStep, new: SubprogramStep, frame: FrameTypes, b: Seq<IOElementCoditions>) -> bool {
        &&& new.id == old.id
        &&& new.descripton == old.descripton
        &&& new.merge_operator == old.merge_operator
        &&& new.bucket(frame) == b
        &&& match frame {
            FrameTypes::State => new.control_conditions == old.control_conditions,
            FrameTypes::Control => new.state_conditions == old.state_conditions,
        }
    }

    /// The same step under another place.
    pub open spec fn with_id(self, id: usize) -> SubprogramStep {
        SubprogramStep { id, ..self }
    }

    /// A step as it is made, at place `id`.
    pub open spec fn is_fresh(self, id: usize) -> bool {
        &&& self.id == id
        &&& self.descripton@ == Seq::<char>::empty()
        &&& self.merge_operator == Operators::AND
        &&& self.state_conditions@ == Seq::<IOElementCoditions>::empty()
        &&& self.control_conditions@ == Seq::<IOElementCoditions>::empty()
    }

    /// Whether a message may be applied: a binding message must address a
    /// binding of the frame it names.
    pub open spec fn accepts(self, message: SubprogramStepMessage) -> bool {
        message matches SubprogramStepMessage::IOElementCoditionsMessage(f, i, m)
            ==> binding_message_ok(self.bucket(f).len(), f, i, m)
    }

    /// How one message changes a step, against the registry's `elements`.
    pub open spec fn stepped(old: SubprogramStep, new: SubprogramStep, message: SubprogramStepMessage, elements: Seq<IOElement>) -> bool {
        match message {
            SubprogramStepMessage::ChangeId(id) => new == old.with_id(id),
            SubprogramStepMessage::AddCondition(f) => Self::rebucketed(old, new, f, old.bucket(f).push(fresh_binding(f))),
            SubprogramStepMessage::DescriptionChanged(d) => new == (SubprogramStep { descripton: d, ..old }),
            SubprogramStepMessage::PickConditions(_) => new == old,
            SubprogramStepMessage::OperatorSelected(op) => new == (SubprogramStep { merge_operator: op, ..old }),
            SubprogramStepMessage::IOElementCoditionsMessage(f, i, m) =>
                Self::rebucketed(old, new, f, bucket_after(old.bucket(f), i, m, elements)),
            SubprogramStepMessage::DeleteStep => new == old,
        }
    }

    pub fn new() -> (r: Self)
        ensures
            r.is_fresh(0),
    {
        SubprogramStep {
            id: 0,
            merge_operator: Operators::AND,
            state_conditions: Vec::new(),
            control_conditions: Vec::new(),
            descripton: String::new(),
        }
    }

    /// Files a binding under the frame it was made for.
    pub fn add_new_conditon(&mut self, condition: IOElementCoditions)
        ensures
            Self::rebucketed(*old(self), *final(self), condition.frame_type,
                old(self).bucket(condition.frame_type).push(condition)),
    {
        match condition.frame_type {
            FrameTypes::State => self.state_conditions.push(condition),
            FrameTypes::Control => self.control_conditions.push(condition),
        }
    }

    pub fn get_conditions(&self, frame_type: FrameTypes) -> (r: Vec<IOElementCoditions>)
        ensures
            r@ == self.bucket(frame_type),
    {
        match frame_type {
            FrameTypes::State => self.state_conditions.clone(),
            FrameTypes::Control => self.control_conditions.clone(),
        }
    }

    /// The binding added last to one frame.
    pub fn get_last_condition(&self, frame_type: FrameTypes) -> (r: IOElementCoditions)
        requires
            self.bucket(frame_type).len() > 0,
        ensures
            r == self.bucket(frame_type).last(),
    {
        match frame_type {
            FrameTypes::State => self.state_conditions[self.state_conditions.len() - 1].clone(),
            FrameTypes::Control => self.control_conditions[self.control_conditions.len() - 1].clone(),
        }
    }

    pub fn get_data(&self) -> (r: (usize, Operators, Vec<IOElementCoditions>, Vec<IOElementCoditions>, String))
        ensures
            r.0 == self.id,
            r.1 == self.merge_operator,
            r.2@ == self.state_conditions@,
            r.3@ == self.control_conditions@,
            r.4 == self.descripton,
    {
        (
            self.id,
            self.merge_operator,
            self.state_conditions.clone(),
            self.control_conditions.clone(),
            self.descripton.clone(),
        )
    }

    /// Applies one edit. A binding message names the frame of its bucket;
    /// picking a frame is the editor's business and changes nothing here.
    pub fn update(&mut self, message: SubprogramStepMessage, io: &IOConfig)
        requires
            old(self).accepts(message),
        ensures
            Self::stepped(*old(self), *final(self), message, io.elements@),
    {
        match message {
            SubprogramStepMessage::ChangeId(id) => {
                self.id = id;
            },
            SubprogramStepMessage::AddCondition(frame_type) => {
                self.add_new_conditon(IOElementCoditions::new(frame_type));
            },
            SubprogramStepMessage::OperatorSelected(operator) => {
                self.merge_operator = operator;
            },
            SubprogramStepMessage::DescriptionChanged(descripton) => {
                self.descripton = descripton;
            },
            SubprogramStepMessage::PickConditions(_) => {},
            SubprogramStepMessage::IOElementCoditionsMessage(frame_type, i, message) => {
                match frame_type {
                    FrameTypes::State => apply_to_bucket(&mut self.state_conditions, i, message, io),
                    FrameTypes::Control => apply_to_bucket(&mut self.control_conditions, i, message, io),
                }
            },
            SubprogramStepMessage::DeleteStep => {},
        }
    }
}

} // verus!
