//! A condition binding: a reference, by name, to one I/O element together with
//! the logical state required of it.
use vstd::prelude::*;
use crate::io::{IOConfig, IOElement, IOElementMessage, names_in_frame};
use crate::kinds::{FrameTypes, IOElementStates};

verus! {

/// A message to a binding: its holder removes it on `DeleteElement`; the
/// other messages edit it (`IOElementMessage` leaves it as it is).
#[derive(Clone, Debug)]
pub enum IOElementCoditionsMessage {
    DeleteElement(FrameTypes),
    IOElementMessage(usize, IOElementMessage),
    StateChanged(IOElementStates),
    IOElementSelected(String),
}

/// A binding to the I/O element named `element`, of the frame fixed at
/// creation. The name is not kept in step with the registry: once no element of
/// that name is left, the binding resolves to nothing.
#[derive(Debug, PartialEq, Eq)]
pub struct IOElementCoditions {
    pub element: Option<String>,
    pub state: IOElementStates,
    pub frame_type: FrameTypes,
}

impl Clone for IOElementCoditions {
    fn clone(&self) -> (r: Self)
        ensures
            r == *self,
    {
        let element = match &self.element {
            Some(name) => Some(name.clone()),
            None => None,
        };
        IOElementCoditions { element, state: self.state, frame_type: self.frame_type }
    }
}

impl IOElementCoditions {
    /// The binding after one edit, against the registry's `elements`: a chosen
    /// name is kept only where an element of the binding's frame bears it.
    pub open spec fn edited(self, message: IOElementCoditionsMessage, elements: Seq<IOElement>) -> IOElementCoditions {
        match message {
            IOElementCoditionsMessage::StateChanged(s) => IOElementCoditions { state: s, ..self },
            IOElementCoditionsMessage::IOElementSelected(name) => IOElementCoditions {
                element: if names_in_frame(elements, name@, self.frame_type) {
                    Some(name)
                } else {
                    None
                },
                ..self
            },
            _ => self,
        }
    }

    pub fn new(frame_type: FrameTypes) -> (r: Self)
        ensures
            r.element.is_none(),
            r.state == IOElementStates::Any,
            r.frame_type == frame_type,
    {
        IOElementCoditions { element: None, state: IOElementStates::Any, frame_type }
    }

    /// Sets the required state, or selects the target by name among the
    /// registry's elements of this binding's frame; a name that none of them
    /// bears leaves the binding without a target.
    pub fn update(&mut self, message: IOElementCoditionsMessage, io: &IOConfig)
        ensures
            *final(self) == old(self).edited(message, io.elements@),
    {
        match message {
            IOElementCoditionsMessage::StateChanged(state) => {
                self.state = state;
            },
            IOElementCoditionsMessage::IOElementSelected(name) => {
                if io.has_element(&name, self.frame_type) {
                    self.element = Some(name);
                } else {
                    self.element = None;
                }
            },
            _ => {},
        }
    }

    pub fn get_data(&self) -> (r: (Option<String>, IOElementStates, FrameTypes))
        ensures
            r.0 == self.element,
            r.1 == self.state,
            r.2 == self.frame_type,
    {
        let element = match &self.element {
            Some(name) => Some(name.clone()),
            None => None,
        };
        (element, self.state, self.frame_type)
    }
}

/// Whether a message may go to the binding at `i` of the bucket of `frame`,
/// which holds `len` bindings: the binding exists, and a deletion names that
/// same frame.
pub open spec fn binding_message_ok(len: nat, frame: FrameTypes, i: usize, message: IOElementCoditionsMessage) -> bool {
    &&& i < len
    &&& message matches IOElementCoditionsMessage::DeleteElement(g) ==> g == frame
}

/// The bucket after a message to its binding at `i`: a deletion removes the
/// binding, any other message edits it against the registry's `elements`.
pub open spec fn bucket_after(
    bucket: Seq<IOElementCoditions>,
    i: usize,
    message: IOElementCoditionsMessage,
    elements: Seq<IOElement>,
) -> Seq<IOElementCoditions> {
    match message {
        IOElementCoditionsMessage::DeleteElement(_) => bucket.remove(i as int),
        _ => bucket.update(i as int, bucket[i as int].edited(message, elements)),
    }
}

/// Applies a message to the binding at `i` of `bucket`.
pub(crate) fn apply_to_bucket(
    bucket: &mut Vec<IOElementCoditions>,
    i: usize,
    message: IOElementCoditionsMessage,
    io: &IOConfig,
)
    requires
        i < old(bucket).len(),
    ensures
        final(bucket)@ == bucket_after(old(bucket)@, i, message, io.elements@),
{
    match message {
        IOElementCoditionsMessage::DeleteElement(_) => {
            bucket.remove(i);
        },
        _ => {
            bucket[i].update(message, io);
        },
    }
}

} // verus!
