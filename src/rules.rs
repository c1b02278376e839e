//! Condition rules: stand-alone guards, each with state and control
//! conditions, blocked and critical flags, and the step address it targets.
use vstd::prelude::*;
use crate::conditions::{
    IOElementCoditions, IOElementCoditionsMessage, apply_to_bucket, binding_message_ok, bucket_after,
};
use crate::io::{IOConfig, IOElement};
use crate::kinds::FrameTypes;
use crate::step::fresh_binding;

verus! {

/// A message that edits one rule, or (`DeleteCondition`) is handled by the
/// registry.
#[derive(Clone, Debug)]
pub enum ConditionsConfigElementMessage {
    DeleteCondition,
    AddCondition(FrameTypes),
    PickConditions(FrameTypes),
    IOElementCoditionsMessage(FrameTypes, usize, IOElementCoditionsMessage),
    CriticalPicked(bool),
    BlockedPicked(bool),
    DescriptionChanged(String),
    AddressSelected(usize),
}

/// One condition rule. `address` is a plain step address, not a link to a
/// step.
#[derive(Clone, Debug, PartialEq, Eq)]
pub struct ConditionsConfigElement {
    pub description: String,
    pub state_conditions: Vec<IOElementCoditions>,
    pub control_conditions: Vec<IOElementCoditions>,
    pub critical: bool,
    pub blocked: bool,
    pub address: usize,
}

impl ConditionsConfigElement {
    /// The bindings of one frame.
    pub open spec fn bucket(self, frame: FrameTypes) -> Seq<IOElementCoditions> {
        match frame {
            FrameTypes::State => self.state_conditions@,
            FrameTypes::Control => self.control_conditions@,
        }
    }

    /// `new` differs from `old` in the bindings of `frame` alone, which are `b`.
    pub open spec fn rebucketed(old: ConditionsConfigElement, new: ConditionsConfigElement, frame: FrameTypes, b: Seq<IOElementCoditions>) -> bool {
        &&& new.description == old.description
        &&& new.critical == old.critical
        &&& new.blocked == old.blocked
        &&& new.address == old.address
        &&& new.bucket(frame) == b
        &&& match frame {
            FrameTypes::State => new.control_conditions == old.control_conditions,
            FrameTypes::Control => new.state_conditions == old.state_conditions,
        }
    }

    /// A rule as it is made.
    pub open spec fn is_fresh(self) -> bool {
        &&& self.description@ == Seq::<char>::empty()
        &&& self.state_conditions@ == Seq::<IOElementCoditions>::empty()
        &&& self.control_conditions@ == Seq::<IOElementCoditions>::empty()
        &&& !self.critical
        &&& !self.blocked
        &&& self.address == 0
    }

    /// Whether a message may be applied: a binding message must address a
    /// binding of the frame it names.
    pub open spec fn accepts(self, message: ConditionsConfigElementMessage) -> bool {
        message matches ConditionsConfigElementMessage::IOElementCoditionsMessage(f, i, m)
            ==> binding_message_ok(self.bucket(f).len(), f, i, m)
    }

    /// How one message changes a rule, against the registry's `elements`.
    pub open spec fn ruled(old: ConditionsConfigElement, new: ConditionsConfigElement, message: ConditionsConfigElementMessage, elements: Seq<IOElement>) -> bool {
        match message {
            ConditionsConfigElementMessage::AddCondition(f) => Self::rebucketed(old, new, f, old.bucket(f).push(fresh_binding(f))),
            ConditionsConfigElementMessage::PickConditions(_) => new == old,
            ConditionsConfigElementMessage::CriticalPicked(b) => new == (ConditionsConfigElement { critical: b, ..old }),
            ConditionsConfigElementMessage::BlockedPicked(b) => new == (ConditionsConfigElement { blocked: b, ..old }),
            ConditionsConfigElementMessage::DescriptionChanged(d) => new == (ConditionsConfigElement { description: d, ..old }),
            ConditionsConfigElementMessage::AddressSelected(a) => new == (ConditionsConfigElement { address: a, ..old }),
            ConditionsConfigElementMessage::IOElementCoditionsMessage(f, i, m) =>
                Self::rebucketed(old, new, f, bucket_after(old.bucket(f), i, m, elements)),
            ConditionsConfigElementMessage::DeleteCondition => new == old,
        }
    }

    pub fn new() -> (r: Self)
        ensures
            r.is_fresh(),
    {
        ConditionsConfigElement {
            description: String::new(),
            state_conditions: Vec::new(),
            control_conditions: Vec::new(),
            critical: false,
            blocked: false,
            address: 0,
        }
    }

    /// Files a binding under the frame it was made for.
    pub fn add_new_conditon(&mut self, condition: IOElementCoditions)
        ensures
            Self::rebucketed(*old(self), *final(self), condition.frame_type,
                old(self).bucket(condition.frame_type).push(condition)),
    {
        match condition.frame_type {
            FrameTypes::State => self.state_conditions.push(condition),
            FrameTypes::Control => self.control_conditions.push(condition),
        }
    }

    pub fn get_conditions(&self, frame_type: FrameTypes) -> (r: Vec<IOElementCoditions>)
        ensures
            r@ == self.bucket(frame_type),
    {
        match frame_type {
            FrameTypes::State => self.state_conditions.clone(),
            FrameTypes::Control => self.control_conditions.clone(),
        }
    }

    /// The binding added last to one frame.
    pub fn get_last_condition(&self, frame_type: FrameTypes) -> (r: IOElementCoditions)
        requires
            self.bucket(frame_type).len() > 0,
        ensures
            r == self.bucket(frame_type).last(),
    {
        match frame_type {
            FrameTypes::State => self.state_conditions[self.state_conditions.len() - 1].clone(),
            FrameTypes::Control => self.control_conditions[self.control_conditions.len() - 1].clone(),
        }
    }

    pub fn get_data(&self) -> (r: (String, Vec<IOElementCoditions>, Vec<IOElementCoditions>, bool, bool, usize))
        ensures
            r.0 == self.description,
            r.1@ == self.state_conditions@,
            r.2@ == self.control_conditions@,
            r.3 == self.blocked,
            r.4 == self.critical,
            r.5 == self.address,
    {
        (
            self.description.clone(),
            self.state_conditions.clone(),
            self.control_conditions.clone(),
            self.blocked,
            self.critical,
            self.address,
        )
    }

    /// Applies one edit. A binding message names the frame of its bucket;
    /// picking a frame is the editor's business and changes nothing here.
    pub fn update(&mut self, message: ConditionsConfigElementMessage, io: &IOConfig)
        requires
            old(self).accepts(message),
        ensures
            Self::ruled(*old(self), *final(self), message, io.elements@),
    {
        match message {
            ConditionsConfigElementMessage::AddCondition(frame_type) => {
                self.add_new_conditon(IOElementCoditions::new(frame_type));
            },
            ConditionsConfigElementMessage::PickConditions(_) => {},
            ConditionsConfigElementMessage::CriticalPicked(state) => {
                self.critical = state;
            },
            ConditionsConfigElementMessage::BlockedPicked(state) => {
                self.blocked = state;
            },
            ConditionsConfigElementMessage::DescriptionChanged(new_descr) => {
                self.description = new_descr;
            },
            ConditionsConfigElementMessage::AddressSelected(address) => {
                self.address = address;
            },
            ConditionsConfigElementMessage::IOElementCoditionsMessage(frame_type, i, message) => {
                match frame_type {
                    FrameTypes::State => apply_to_bucket(&mut self.state_conditions, i, message, io),
                    FrameTypes::Control => apply_to_bucket(&mut self.control_conditions, i, message, io),
                }
            },
            ConditionsConfigElementMessage::DeleteCondition => {},
        }
    }
}

/// Which part of the rule editor is open.
#[derive(Clone, Copy, Debug, PartialEq, Eq, Structural)]
pub enum CondtionsConfigStetes {
    CondtionsConfigState,
    IOConditonsPick,
}

/// A message that edits the registry: adds a rule, or addresses the rule at
/// an index.
#[derive(Clone, Debug)]
pub enum CondtionsConfigMessage {
    AddNewConditons,
    ConditionsConfigElementMessage(usize, ConditionsConfigElementMessage),
}

/// Selects the rules that target `address`.
pub open spec fn at_address(address: usize) -> spec_fn(ConditionsConfigElement) -> bool {
    |r: ConditionsConfigElement| r.address == address
}

/// Rules ordered by target address, ascending.
pub open spec fn sorted_by_address(rules: Seq<ConditionsConfigElement>) -> bool {
    forall|i: int, j: int| 0 <= i < j < rules.len() ==> rules[i].address <= rules[j].address
}

/// `new` holds the rules of `old` ordered by address, and rules of one address
/// in the order they had.
pub open spec fn stably_sorted(old: Seq<ConditionsConfigElement>, new: Seq<ConditionsConfigElement>) -> bool {
    &&& new.len() == old.len()
    &&& sorted_by_address(new)
    &&& forall|a: usize| #[trigger] new.filter(at_address(a)) == old.filter(at_address(a))
}

/// A sequence of which no element passes `pred` filters to nothing.
proof fn lemma_filter_none(s: Seq<ConditionsConfigElement>, pred: spec_fn(ConditionsConfigElement) -> bool)
    requires
        forall|j: int| 0 <= j < s.len() ==> !pred(#[trigger] s[j]),
    ensures
        s.filter(pred) == Seq::<ConditionsConfigElement>::empty(),
{
    if s.filter(pred).len() > 0 {
        let e = s.filter(pred)[0];
        assert(s.filter(pred).contains(e));
        s.lemma_filter_contains_rev(pred, e);
        s.lemma_filter_pred(pred, 0);
    }
    assert(s.filter(pred) =~= Seq::<ConditionsConfigElement>::empty());
}

/// Inserting `x` after every rule of lower or equal address, and before every
/// rule of higher address, adds `x` at the end of the rules of its address.
proof fn lemma_filter_insert(s: Seq<ConditionsConfigElement>, p: int, x: ConditionsConfigElement, a: usize)
    requires
        0 <= p <= s.len(),
        forall|j: int| p <= j < s.len() ==> (#[trigger] s[j]).address > x.address,
    ensures
        s.insert(p, x).filter(at_address(a)) == if x.address == a {
            s.filter(at_address(a)).push(x)
        } else {
            s.filter(at_address(a))
        },
{
    let pred = at_address(a);
    let head = s.take(p);
    let tail = s.skip(p);
    assert(s =~= head + tail);
    assert(s.insert(p, x) =~= head + seq![x] + tail);
    Seq::filter_distributes_over_add(head, tail, pred);
    Seq::filter_distributes_over_add(head + seq![x], tail, pred);
    Seq::filter_distributes_over_add(head, seq![x], pred);
    assert(seq![x] =~= Seq::<ConditionsConfigElement>::empty().push(x));
    Seq::<ConditionsConfigElement>::empty().lemma_filter_push(x, pred);
    assert(Seq::<ConditionsConfigElement>::empty().filter(pred) =~= Seq::<ConditionsConfigElement>::empty()) by {
        reveal(Seq::filter);
    }
    if x.address == a {
        lemma_filter_none(tail, pred);
        assert(s.filter(pred) =~= head.filter(pred));
    }
}

/// The rules of a document, with the rule last opened for editing and the
/// part of the editor that is open.
#[derive(Clone, Debug)]
pub struct CondtionsConfig {
    pub conditions: Vec<ConditionsConfigElement>,
    pub current_condition_edit: usize,
    pub state: CondtionsConfigStetes,
}

impl CondtionsConfig {
    /// Whether a message may be applied: the rule it addresses must exist and
    /// accept it.
    pub open spec fn accepts(self, message: CondtionsConfigMessage) -> bool {
        match message {
            CondtionsConfigMessage::ConditionsConfigElementMessage(i, m) =>
                i < self.conditions.len() && self.conditions@[i as int].accepts(m),
            _ => true,
        }
    }

    pub fn new() -> (r: Self)
        ensures
            r.conditions@ == Seq::<ConditionsConfigElement>::empty(),
            r.current_condition_edit == 0,
            r.state == CondtionsConfigStetes::CondtionsConfigState,
    {
        CondtionsConfig {
            current_condition_edit: 0,
            conditions: Vec::new(),
            state: CondtionsConfigStetes::CondtionsConfigState,
        }
    }

    pub fn get_last_condtions(&self) -> (r: &ConditionsConfigElement)
        requires
            self.conditions.len() > 0,
        ensures
            *r == self.conditions@.last(),
    {
        &self.conditions[self.conditions.len() - 1]
    }

    pub fn get_current_editable_subprogram(&self) -> (r: &ConditionsConfigElement)
        requires
            self.current_condition_edit < self.conditions.len(),
        ensures
            *r == self.conditions@[self.current_condition_edit as int],
    {
        &self.conditions[self.current_condition_edit]
    }

    pub fn get_current_editable_id(&self) -> (r: usize)
        ensures
            r == self.current_condition_edit,
    {
        self.current_condition_edit
    }

    pub fn get_conditon(&self, id: usize) -> (r: &ConditionsConfigElement)
        requires
            id < self.conditions.len(),
        ensures
            *r == self.conditions@[id as int],
    {
        &self.conditions[id]
    }

    /// Orders the rules by target address, keeping rules of one address in
    /// the order they had.
    pub fn sort_conditions(&mut self)
        ensures
            stably_sorted(old(self).conditions@, final(self).conditions@),
            final(self).current_condition_edit == old(self).current_condition_edit,
            final(self).state == old(self).state,
    {
        let mut rest: Vec<ConditionsConfigElement> = Vec::new();
        std::mem::swap(&mut rest, &mut self.conditions);
        let ghost orig = rest@;
        let ghost n = orig.len();
        assert(n == rest.len());
        let mut k: usize = 0;
        while rest.len() > 0
            invariant
                k <= n,
                n == orig.len(),
                n <= usize::MAX,
                rest@ == orig.skip(k as int),
                self.conditions.len() == k,
                sorted_by_address(self.conditions@),
                forall|a: usize| #[trigger] self.conditions@.filter(at_address(a)) == orig.take(k as int).filter(at_address(a)),
                self.current_condition_edit == old(self).current_condition_edit,
                self.state == old(self).state,
            decreases rest.len(),
        {
            assert(rest@.len() == n - k);
            assert(rest@[0] == orig[k as int]);
            let x = rest.remove(0);
            let mut p: usize = 0;
            while p < self.conditions.len() && self.conditions[p].address <= x.address
                invariant
                    p <= self.conditions.len(),
                    forall|j: int| 0 <= j < p ==> (#[trigger] self.conditions@[j]).address <= x.address,
                decreases self.conditions.len() - p,
            {
                p = p + 1;
            }
            let ghost before = self.conditions@;
            proof {
                assert forall|j: int| p <= j < before.len() implies (#[trigger] before[j]).address > x.address by {
                    assert(before[p as int].address > x.address);
                }
                assert(orig.take(k + 1) =~= orig.take(k as int).push(x));
                assert forall|a: usize| #[trigger] before.insert(p as int, x).filter(at_address(a))
                    == orig.take(k + 1).filter(at_address(a)) by {
                    lemma_filter_insert(before, p as int, x, a);
                    orig.take(k as int).lemma_filter_push(x, at_address(a));
                }
            }
            self.conditions.insert(p, x);
            k = k + 1;
            assert(rest@ =~= orig.skip(k as int));
        }
        assert(orig.take(k as int) =~= orig);
    }

    pub fn get_conditions(&self) -> (r: &Vec<ConditionsConfigElement>)
        ensures
            *r == self.conditions,
    {
        &self.conditions
    }

    /// Applies one edit: appends a fresh rule, deletes the rule at an index,
    /// or edits it. Picking a frame of a rule only opens that rule for editing;
    /// the frame itself travels with each binding message.
    pub fn update(&mut self, message: CondtionsConfigMessage, io: &IOConfig)
        requires
            old(self).accepts(message),
        ensures
            final(self).state == old(self).state,
            match message {
                CondtionsConfigMessage::AddNewConditons => {
                    &&& final(self).conditions@ == old(self).conditions@.push(final(self).conditions@.last())
                    &&& final(self).conditions@.last().is_fresh()
                    &&& final(self).current_condition_edit == old(self).current_condition_edit
                },
                CondtionsConfigMessage::ConditionsConfigElementMessage(i, ConditionsConfigElementMessage::DeleteCondition) => {
                    &&& final(self).conditions@ == old(self).conditions@.remove(i as int)
                    &&& final(self).current_condition_edit == old(self).current_condition_edit
                },
                CondtionsConfigMessage::ConditionsConfigElementMessage(i, ConditionsConfigElementMessage::PickConditions(_)) => {
                    &&& final(self).conditions@ == old(self).conditions@
                    &&& final(self).current_condition_edit == i
                },
                CondtionsConfigMessage::ConditionsConfigElementMessage(i, m) => {
                    &&& final(self).conditions.len() == old(self).conditions.len()
                    &&& forall|j: int| 0 <= j < old(self).conditions.len() && j != i ==>
                        #[trigger] final(self).conditions@[j] == old(self).conditions@[j]
                    &&& ConditionsConfigElement::ruled(
                        old(self).conditions@[i as int], final(self).conditions@[i as int], m, io.elements@)
                    &&& final(self).current_condition_edit == old(self).current_condition_edit
                },
            },
    {
        match message {
            CondtionsConfigMessage::ConditionsConfigElementMessage(i, message) => {
                match message {
                    ConditionsConfigElementMessage::DeleteCondition => {
                        self.conditions.remove(i);
                    },
                    ConditionsConfigElementMessage::PickConditions(_) => {
                        self.current_condition_edit = i;
                    },
                    _ => {
                        self.conditions[i].update(message, io);
                    },
                }
            },
            CondtionsConfigMessage::AddNewConditons => {
                self.conditions.push(ConditionsConfigElement::new());
            },
        }
    }
}

} // verus!
