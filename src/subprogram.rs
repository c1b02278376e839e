//! Subprograms, ordered sequences of steps, and the registry that gives each
//! subprogram its address in the flattened sequence of all steps.
use vstd::prelude::*;
use crate::io::{IOConfig, IOElement};
use crate::kinds::SubprogramTypes;
use crate::step::{SubprogramStep, SubprogramStepMessage};

verus! {

/// A message that edits one subprogram or one of its steps.
#[derive(Clone, Debug)]
pub enum SubprogramMessage {
    AddNewSubprogramStep,
    SubprogramEdit,
    SubprogramDelete,
    SubprogramTypeSelected(SubprogramTypes),
    SubprogramDescrptionChanged(String),
    SubprogramStepMessage(usize, SubprogramStepMessage),
}

/// The steps of `s` in order, each renumbered to its 1-based place.
pub open spec fn renumbered(s: Seq<SubprogramStep>) -> Seq<SubprogramStep> {
    Seq::new(s.len(), |k: int| s[k].with_id((k + 1) as usize))
}

/// A named, ordered sequence of steps. `address` is given by the registry;
/// `current_step_edit` is the step last addressed by an edit.
#[derive(Clone, Debug, PartialEq, Eq)]
pub struct Subprogram {
    pub address: usize,
    pub name: String,
    pub priority_type: SubprogramTypes,
    pub steps: Vec<SubprogramStep>,
    pub current_step_edit: usize,
}

impl Subprogram {
    /// Each step bears its 1-based place.
    pub open spec fn wf(self) -> bool {
        forall|k: int| 0 <= k < self.steps.len() ==> (#[trigger] self.steps@[k]).id == k + 1
    }

    /// `a` and `b` hold the same document, whatever their addresses.
    pub open spec fn same_document(a: Subprogram, b: Subprogram) -> bool {
        &&& a.name == b.name
        &&& a.priority_type == b.priority_type
        &&& a.steps == b.steps
        &&& a.current_step_edit == b.current_step_edit
    }

    /// A subprogram as it is made, but for its address.
    pub open spec fn is_fresh(self) -> bool {
        &&& self.name@ == Seq::<char>::empty()
        &&& self.priority_type == SubprogramTypes::Dflt
        &&& self.steps@ == Seq::<SubprogramStep>::empty()
        &&& self.current_step_edit == 0
    }

    /// Whether a message may be applied: the step it addresses must exist and
    /// accept it.
    pub open spec fn accepts(self, message: SubprogramMessage) -> bool {
        match message {
            SubprogramMessage::SubprogramStepMessage(i, m) => i < self.steps.len() && self.steps@[i as int].accepts(m),
            _ => true,
        }
    }

    /// How one message changes a subprogram, but for its address, against the
    /// registry's `elements`. Renumbering is the subprogram's own: a request to
    /// change a step's place only moves the cursor.
    pub open spec fn stepped(old: Subprogram, new: Subprogram, message: SubprogramMessage, elements: Seq<IOElement>) -> bool {
        match message {
            SubprogramMessage::AddNewSubprogramStep => {
                &&& new.name == old.name
                &&& new.priority_type == old.priority_type
                &&& new.current_step_edit == old.current_step_edit
                &&& new.steps@ == old.steps@.push(new.steps@.last())
                &&& new.steps@.last().is_fresh((old.steps.len() + 1) as usize)
            },
            SubprogramMessage::SubprogramTypeSelected(t) => {
                &&& new.name == old.name
                &&& new.priority_type == t
                &&& new.steps == old.steps
                &&& new.current_step_edit == old.current_step_edit
            },
            SubprogramMessage::SubprogramDescrptionChanged(d) => {
                &&& new.name == d
                &&& new.priority_type == old.priority_type
                &&& new.steps == old.steps
                &&& new.current_step_edit == old.current_step_edit
            },
            SubprogramMessage::SubprogramStepMessage(i, SubprogramStepMessage::DeleteStep) => {
                &&& new.name == old.name
                &&& new.priority_type == old.priority_type
                &&& new.current_step_edit == i
                &&& new.steps@ == renumbered(old.steps@.remove(i as int))
            },
            SubprogramMessage::SubprogramStepMessage(i, SubprogramStepMessage::ChangeId(_)) => {
                &&& new.name == old.name
                &&& new.priority_type == old.priority_type
                &&& new.current_step_edit == i
                &&& new.steps == old.steps
            },
            SubprogramMessage::SubprogramStepMessage(i, m) => {
                &&& new.name == old.name
                &&& new.priority_type == old.priority_type
                &&& new.current_step_edit == i
                &&& new.steps.len() == old.steps.len()
                &&& forall|k: int| 0 <= k < old.steps.len() && k != i ==> new.steps@[k] == old.steps@[k]
                &&& SubprogramStep::stepped(old.steps@[i as int], new.steps@[i as int], m, elements)
            },
            _ => Self::same_document(old, new),
        }
    }

    pub fn new() -> (r: Self)
        ensures
            r.is_fresh(),
            r.address == 0,
            r.wf(),
    {
        Subprogram {
            address: 0,
            name: String::new(),
            priority_type: SubprogramTypes::Dflt,
            steps: Vec::new(),
            current_step_edit: 0,
        }
    }

    pub fn get_data(&self) -> (r: (usize, String, SubprogramTypes, &Vec<SubprogramStep>))
        ensures
            r.0 == self.address,
            r.1 == self.name,
            r.2 == self.priority_type,
            *r.3 == self.steps,
    {
        (self.address, self.name.clone(), self.priority_type, &self.steps)
    }

    pub fn get_current_editable_step_id(&self) -> (r: usize)
        ensures
            r == self.current_step_edit,
    {
        self.current_step_edit
    }

    pub fn get_current_editable_step(&self) -> (r: &SubprogramStep)
        requires
            self.current_step_edit < self.steps.len(),
        ensures
            *r == self.steps@[self.current_step_edit as int],
    {
        &self.steps[self.current_step_edit]
    }

    pub fn get_step(&self, id: usize) -> (r: &SubprogramStep)
        requires
            id < self.steps.len(),
        ensures
            *r == self.steps@[id as int],
    {
        &self.steps[id]
    }

    pub fn get_last_step(&self) -> (r: &SubprogramStep)
        requires
            self.steps.len() > 0,
        ensures
            *r == self.steps@.last(),
    {
        &self.steps[self.steps.len() - 1]
    }

    pub fn get_steps_count(&self) -> (r: usize)
        ensures
            r == self.steps.len(),
    {
        self.steps.len()
    }

    /// Appends a fresh step, numbered with the new step count.
    pub fn add_new_step(&mut self)
        ensures
            final(self).steps@ == old(self).steps@.push(final(self).steps@.last()),
            final(self).steps@.last().is_fresh((old(self).steps.len() + 1) as usize),
            final(self).address == old(self).address,
            final(self).name == old(self).name,
            final(self).priority_type == old(self).priority_type,
            final(self).current_step_edit == old(self).current_step_edit,
            old(self).wf() ==> final(self).wf(),
    {
        self.steps.push(SubprogramStep::new());
        let n = self.steps.len();
        self.steps[n - 1].id = n;
    }

    /// Removes the step at `index` and renumbers the rest `1..` in their order.
    pub fn remove_step(&mut self, index: usize)
        requires
            index < old(self).steps.len(),
        ensures
            final(self).steps@ == renumbered(old(self).steps@.remove(index as int)),
            final(self).steps.len() == old(self).steps.len() - 1,
            final(self).wf(),
            final(self).address == old(self).address,
            final(self).name == old(self).name,
            final(self).priority_type == old(self).priority_type,
            final(self).current_step_edit == old(self).current_step_edit,
    {
        self.steps.remove(index);
        let ghost rest = self.steps@;
        let mut k: usize = 0;
        while k < self.steps.len()
            invariant
                k <= self.steps.len(),
                self.steps.len() == rest.len(),
                forall|j: int| 0 <= j < k ==> #[trigger] self.steps@[j] == rest[j].with_id((j + 1) as usize),
                forall|j: int| k <= j < rest.len() ==> #[trigger] self.steps@[j] == rest[j],
                self.address == old(self).address,
                self.name == old(self).name,
                self.priority_type == old(self).priority_type,
                self.current_step_edit == old(self).current_step_edit,
            decreases self.steps.len() - k,
        {
            self.steps[k].id = k + 1;
            k = k + 1;
        }
        assert(self.steps@ =~= renumbered(rest));
    }

    /// Applies one edit. A step edit moves the cursor to that step; deleting a
    /// step renumbers the others.
    pub fn update(&mut self, message: SubprogramMessage, io: &IOConfig)
        requires
            old(self).accepts(message),
        ensures
            Self::stepped(*old(self), *final(self), message, io.elements@),
            final(self).address == old(self).address,
            old(self).wf() ==> final(self).wf(),
    {
        match message {
            SubprogramMessage::SubprogramStepMessage(i, message) => {
                self.current_step_edit = i;
                match message {
                    SubprogramStepMessage::DeleteStep => {
                        self.remove_step(i);
                    },
                    SubprogramStepMessage::ChangeId(_) => {},
                    _ => {
                        self.steps[i].update(message, io);
                    },
                }
            },
            SubprogramMessage::AddNewSubprogramStep => {
                self.add_new_step();
            },
            SubprogramMessage::SubprogramTypeSelected(program_type) => {
                self.priority_type = program_type;
            },
            SubprogramMessage::SubprogramDescrptionChanged(description) => {
                self.name = description;
            },
            _ => {},
        }
    }
}

/// A message that edits the registry: adds a subprogram, or addresses the
/// subprogram at an index.
#[derive(Clone, Debug)]
pub enum SubprogramConfigMessage {
    AddNewSubprogram,
    SubprogramMessage(usize, SubprogramMessage),
}

/// Which part of the subprogram editor is open.
#[derive(Clone, Copy, Debug, PartialEq, Eq, Structural)]
pub enum SubprogramConfigStetes {
    SubprogramConfigState,
    SubprogramEditState,
    SubprogramStepConditonsPick,
    SubprogramEditDescription,
}

/// The number of steps of all of `subs`.
#[verifier::opaque]
pub open spec fn step_total(subs: Seq<Subprogram>) -> nat
    decreases subs.len(),
{
    if subs.len() == 0 {
        0
    } else {
        step_total(subs.drop_last()) + subs.last().steps@.len()
    }
}

/// Totals depend on the step counts alone.
proof fn lemma_total_same_counts(a: Seq<Subprogram>, b: Seq<Subprogram>)
    requires
        a.len() == b.len(),
        forall|j: int| 0 <= j < a.len() ==> (#[trigger] a[j]).steps.len() == b[j].steps.len(),
    ensures
        step_total(a) == step_total(b),
    decreases a.len(),
{
    reveal(step_total);
    if a.len() > 0 {
        lemma_total_same_counts(a.drop_last(), b.drop_last());
    }
}

/// A prefix holds no more steps than the whole.
proof fn lemma_total_take(s: Seq<Subprogram>, k: int)
    requires
        0 <= k <= s.len(),
    ensures
        step_total(s.take(k)) <= step_total(s),
        k < s.len() ==> step_total(s.take(k + 1)) == step_total(s.take(k)) + s[k].steps.len(),
    decreases s.len(),
{
    reveal(step_total);
    if k < s.len() {
        assert(s.take(k + 1).drop_last() =~= s.take(k));
        if k + 1 < s.len() {
            lemma_total_take(s.drop_last(), k + 1);
            assert(s.drop_last().take(k + 1) =~= s.take(k + 1));
        } else {
            assert(s.take(k + 1) =~= s);
        }
    } else {
        assert(s.take(k) =~= s);
    }
}

/// Replacing one subprogram changes the total by the difference of counts.
proof fn lemma_total_update(s: Seq<Subprogram>, i: int, x: Subprogram)
    requires
        0 <= i < s.len(),
    ensures
        step_total(s.update(i, x)) + s[i].steps.len() == step_total(s) + x.steps.len(),
    decreases s.len(),
{
    reveal(step_total);
    if i < s.len() - 1 {
        lemma_total_update(s.drop_last(), i, x);
        assert(s.update(i, x).drop_last() =~= s.drop_last().update(i, x));
    } else {
        assert(s.update(i, x).drop_last() =~= s.drop_last());
    }
}

/// Appending a subprogram adds its steps to the total.
proof fn lemma_total_push(s: Seq<Subprogram>, x: Subprogram)
    ensures
        step_total(s.push(x)) == step_total(s) + x.steps.len(),
{
    reveal(step_total);
    assert(s.push(x).drop_last() =~= s);
}

/// Removing one subprogram takes its steps out of the total.
proof fn lemma_total_remove(s: Seq<Subprogram>, i: int)
    requires
        0 <= i < s.len(),
    ensures
        step_total(s.remove(i)) + s[i].steps.len() == step_total(s),
    decreases s.len(),
{
    reveal(step_total);
    if i < s.len() - 1 {
        lemma_total_remove(s.drop_last(), i);
        assert(s.remove(i).drop_last() =~= s.drop_last().remove(i));
    } else {
        assert(s.remove(i) =~= s.drop_last());
    }
}

/// The address of each subprogram is one past the steps before it, and the
/// last address is one past all steps.
pub open spec fn addressed(subs: Seq<Subprogram>, last_address: usize) -> bool {
    &&& forall|k: int| 0 <= k < subs.len() ==> (#[trigger] subs[k]).address == 1 + step_total(subs.take(k))
    &&& last_address == 1 + step_total(subs)
}

/// The ordered subprograms of a document. `current_subprogram_edit` is the
/// subprogram last opened for editing.
#[derive(Clone, Debug)]
pub struct SubprogramConfig {
    pub subprograms: Vec<Subprogram>,
    pub current_subprogram_edit: usize,
    pub last_address: usize,
}

impl SubprogramConfig {
    /// Every subprogram numbers its steps, and addresses follow step counts.
    pub open spec fn wf(self) -> bool {
        &&& forall|k: int| 0 <= k < self.subprograms.len() ==> (#[trigger] self.subprograms@[k]).wf()
        &&& addressed(self.subprograms@, self.last_address)
    }

    /// `new` holds the document of `old`, subprogram by subprogram.
    pub open spec fn same_documents(old: Seq<Subprogram>, new: Seq<Subprogram>) -> bool {
        &&& new.len() == old.len()
        &&& forall|j: int| 0 <= j < old.len() ==> Subprogram::same_document(#[trigger] old[j], new[j])
    }

    /// Whether a message may be applied: the subprogram it addresses must
    /// exist and accept it, and a new step must leave room for its address.
    pub open spec fn accepts(self, message: SubprogramConfigMessage) -> bool {
        match message {
            SubprogramConfigMessage::SubprogramMessage(i, m) => {
                &&& i < self.subprograms.len()
                &&& self.subprograms@[i as int].accepts(m)
                &&& m is AddNewSubprogramStep ==> self.last_address < usize::MAX
            },
            _ => true,
        }
    }

    pub fn new() -> (r: Self)
        ensures
            r.subprograms@ == Seq::<Subprogram>::empty(),
            r.current_subprogram_edit == 0,
            r.last_address == 1,
            r.wf(),
    {
        let r = SubprogramConfig { current_subprogram_edit: 0, subprograms: Vec::new(), last_address: 1 };
        assert(step_total(r.subprograms@) == 0) by {
            reveal(step_total);
        }
        r
    }

    pub fn get_last_subprogram(&self) -> (r: &Subprogram)
        requires
            self.subprograms.len() > 0,
        ensures
            *r == self.subprograms@.last(),
    {
        &self.subprograms[self.subprograms.len() - 1]
    }

    pub fn get_current_editable_subprogram(&self) -> (r: &Subprogram)
        requires
            self.current_subprogram_edit < self.subprograms.len(),
        ensures
            *r == self.subprograms@[self.current_subprogram_edit as int],
    {
        &self.subprograms[self.current_subprogram_edit]
    }

    pub fn get_current_editable_id(&self) -> (r: usize)
        ensures
            r == self.current_subprogram_edit,
    {
        self.current_subprogram_edit
    }

    pub fn get_subprogram(&self, id: usize) -> (r: &Subprogram)
        requires
            id < self.subprograms.len(),
        ensures
            *r == self.subprograms@[id as int],
    {
        &self.subprograms[id]
    }

    pub fn get_last_address(&self) -> (r: usize)
        ensures
            r == self.last_address,
    {
        self.last_address
    }

    pub fn get_subprograms(&self) -> (r: &Vec<Subprogram>)
        ensures
            *r == self.subprograms,
    {
        &self.subprograms
    }

    /// The step addresses a condition rule may target: `1` up to, not
    /// including, the last address.
    pub fn get_address_list(&self) -> (r: Vec<usize>)
        ensures
            self.last_address > 0 ==> r@.len() == self.last_address - 1,
            self.last_address == 0 ==> r@.len() == 0,
            forall|k: int| 0 <= k < r@.len() ==> #[trigger] r@[k] == k + 1,
    {
        let mut r: Vec<usize> = Vec::new();
        let mut a: usize = 1;
        while a < self.last_address
            invariant
                1 <= a,
                a <= self.last_address || a == 1,
                r@.len() == a as int - 1,
                forall|k: int| 0 <= k < r@.len() ==> #[trigger] r@[k] == k + 1,
            decreases self.last_address - a,
        {
            r.push(a);
            a = a + 1;
        }
        assert(self.last_address > 0 ==> a == self.last_address);
        r
    }

    /// Whether `address` is the address of a step, one a condition rule may
    /// target: from 1 up to, not including, the last address.
    pub fn is_step_address(&self, address: usize) -> (r: bool)
        ensures
            r == (1 <= address && address < self.last_address),
    {
        1 <= address && address < self.last_address
    }

    /// Gives each subprogram, in order, the address one past the steps before
    /// it, and sets the last address one past all steps.
    pub fn update_addresses(&mut self)
        requires
            1 + step_total(old(self).subprograms@) <= usize::MAX,
        ensures
            addressed(final(self).subprograms@, final(self).last_address),
            Self::same_documents(old(self).subprograms@, final(self).subprograms@),
            final(self).current_subprogram_edit == old(self).current_subprogram_edit,
    {
        let ghost subs = self.subprograms@;
        self.last_address = 1;
        assert(step_total(subs.take(0)) == 0) by {
            reveal(step_total);
        }
        let mut i: usize = 0;
        while i < self.subprograms.len()
            invariant
                i <= self.subprograms.len(),
                self.subprograms.len() == subs.len(),
                1 + step_total(subs) <= usize::MAX,
                self.last_address == 1 + step_total(subs.take(i as int)),
                forall|j: int| 0 <= j < subs.len() ==> Subprogram::same_document(#[trigger] subs[j], self.subprograms@[j]),
                forall|j: int| 0 <= j < i ==> (#[trigger] self.subprograms@[j]).address == 1 + step_total(subs.take(j)),
                self.current_subprogram_edit == old(self).current_subprogram_edit,
            decreases self.subprograms.len() - i,
        {
            proof {
                lemma_total_take(subs, i as int);
                lemma_total_take(subs, i + 1);
            }
            let count = self.subprograms[i].steps.len();
            self.subprograms[i].address = self.last_address;
            self.last_address = self.last_address + count;
            i = i + 1;
        }
        proof {
            assert(subs.take(i as int) =~= subs);
            let fin = self.subprograms@;
            assert forall|k: int| 0 <= k < fin.len() implies (#[trigger] fin[k]).address == 1 + step_total(fin.take(k)) by {
                lemma_total_same_counts(subs.take(k), fin.take(k));
            }
            lemma_total_same_counts(subs, fin);
        }
    }

    /// Applies one edit and then recomputes every address.
    pub fn update(&mut self, message: SubprogramConfigMessage, io: &IOConfig)
        requires
            old(self).wf(),
            old(self).accepts(message),
        ensures
            final(self).wf(),
            match message {
                SubprogramConfigMessage::AddNewSubprogram => {
                    &&& final(self).subprograms.len() == old(self).subprograms.len() + 1
                    &&& Self::same_documents(old(self).subprograms@, final(self).subprograms@.drop_last())
                    &&& final(self).subprograms@.last().is_fresh()
                    &&& final(self).current_subprogram_edit == old(self).current_subprogram_edit
                },
                SubprogramConfigMessage::SubprogramMessage(i, SubprogramMessage::SubprogramDelete) => {
                    &&& Self::same_documents(old(self).subprograms@.remove(i as int), final(self).subprograms@)
                    &&& final(self).current_subprogram_edit == old(self).current_subprogram_edit
                },
                SubprogramConfigMessage::SubprogramMessage(i, SubprogramMessage::SubprogramEdit) => {
                    &&& Self::same_documents(old(self).subprograms@, final(self).subprograms@)
                    &&& final(self).current_subprogram_edit == i
                },
                SubprogramConfigMessage::SubprogramMessage(i, m) => {
                    &&& final(self).subprograms.len() == old(self).subprograms.len()
                    &&& forall|j: int| 0 <= j < old(self).subprograms.len() && j != i ==>
                        Subprogram::same_document(#[trigger] old(self).subprograms@[j], final(self).subprograms@[j])
                    &&& Subprogram::stepped(
                        old(self).subprograms@[i as int], final(self).subprograms@[i as int], m, io.elements@)
                    &&& final(self).current_subprogram_edit == old(self).current_subprogram_edit
                },
            },
    {
        let ghost subs = self.subprograms@;
        let ghost msg = message;
        match message {
            SubprogramConfigMessage::SubprogramMessage(i, message) => {
                match message {
                    SubprogramMessage::SubprogramDelete => {
                        self.subprograms.remove(i);
                        proof {
                            lemma_total_remove(subs, i as int);
                        }
                    },
                    SubprogramMessage::SubprogramEdit => {
                        self.current_subprogram_edit = i;
                    },
                    _ => {
                        self.subprograms[i].update(message, io);
                        proof {
                            lemma_total_update(subs, i as int, self.subprograms@[i as int]);
                            assert(self.subprograms@ =~= subs.update(i as int, self.subprograms@[i as int]));
                        }
                    },
                }
            },
            SubprogramConfigMessage::AddNewSubprogram => {
                self.subprograms.push(Subprogram::new());
                proof {
                    assert(self.subprograms@.drop_last() =~= subs);
                    lemma_total_push(subs, self.subprograms@.last());
                }
            },
        }
        let ghost mid = self.subprograms@;
        self.update_addresses();
        proof {
            let fin = self.subprograms@;
            assert forall|k: int| 0 <= k < fin.len() implies (#[trigger] fin[k]).wf() by {
                assert(Subprogram::same_document(mid[k], fin[k]));
            }
            if message is AddNewSubprogram {
                assert forall|j: int| 0 <= j < subs.len() implies Subprogram::same_document(
                    #[trigger] subs[j], fin.drop_last()[j]) by {
                    assert(Subprogram::same_document(mid[j], fin[j]));
                }
                assert(Subprogram::same_document(mid.last(), fin.last()));
                assert(fin.len() == subs.len() + 1);
                assert(Self::same_documents(subs, fin.drop_last()));
                assert(fin.last().is_fresh());
            }
            match msg {
                SubprogramConfigMessage::SubprogramMessage(i, m) => if !(m is SubprogramDelete) {
                    assert(mid.len() == subs.len());
                    assert forall|j: int| 0 <= j < subs.len() && j != i implies Subprogram::same_document(
                        #[trigger] subs[j], fin[j]) by {
                        assert(Subprogram::same_document(mid[j], fin[j]));
                    }
                    assert(Subprogram::same_document(mid[i as int], fin[i as int]));
                },
                _ => {},
            }
        }
    }
}

/// The addresses of a well-formed registry chain: the first subprogram starts
/// at 1, each next one starts where the one before ends, and the last address
/// is where the last subprogram ends (1 for an empty registry).
pub proof fn lemma_address_chain(cfg: SubprogramConfig)
    requires
        cfg.wf(),
    ensures
        cfg.subprograms.len() == 0 ==> cfg.last_address == 1,
        cfg.subprograms.len() > 0 ==> cfg.subprograms@[0].address == 1,
        forall|j: int, k: int|
            #![trigger cfg.subprograms@[j], cfg.subprograms@[k]]
            0 <= j && k == j + 1 && k < cfg.subprograms.len() ==>
                cfg.subprograms@[k].address == cfg.subprograms@[j].address + cfg.subprograms@[j].steps.len(),
        cfg.subprograms.len() > 0 ==> cfg.last_address == cfg.subprograms@.last().address
            + cfg.subprograms@.last().steps.len(),
        forall|k: int| 0 <= k < cfg.subprograms.len() ==>
            (#[trigger] cfg.subprograms@[k]).address + cfg.subprograms@[k].steps.len() <= cfg.last_address,
{
    let subs = cfg.subprograms@;
    let n = subs.len() as int;
    if n == 0 {
        reveal(step_total);
    } else {
        assert(step_total(subs.take(0)) == 0) by {
            reveal(step_total);
        }
        assert(subs[0].address == 1 + step_total(subs.take(0)));
    }
    assert forall|j: int, k: int|
        #![trigger subs[j], subs[k]]
        0 <= j && k == j + 1 && k < n implies subs[k].address == subs[j].address + subs[j].steps.len() by {
        lemma_total_take(subs, j);
        assert(subs[j].address == 1 + step_total(subs.take(j)));
        assert(subs[k].address == 1 + step_total(subs.take(k)));
    }
    if n > 0 {
        lemma_total_take(subs, n - 1);
        assert(subs.take(n) =~= subs);
        assert(subs[n - 1].address == 1 + step_total(subs.take(n - 1)));
    }
    assert forall|k: int| 0 <= k < n implies (#[trigger] subs[k]).address + subs[k].steps.len()
        <= cfg.last_address by {
        lemma_total_take(subs, k);
        lemma_total_take(subs, k + 1);
        assert(subs[k].address == 1 + step_total(subs.take(k)));
    }
}

} // verus!
