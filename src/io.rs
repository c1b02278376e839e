//! The registry of named binary I/O signals.
use vstd::prelude::*;
use vstd::string::StrSliceExecFns;
use crate::kinds::{FrameTypes, SignalTypes};

verus! {

/// Value of a run of decimal digits.
pub open spec fn digits_value(s: Seq<char>) -> nat
    decreases s.len(),
{
    if s.len() == 0 {
        0
    } else {
        (digits_value(s.drop_last()) * 10 + (s.last() as int - '0' as int)) as nat
    }
}

pub open spec fn is_digit(c: char) -> bool {
    '0' <= c && c <= '9'
}

pub open spec fn all_digits(s: Seq<char>) -> bool {
    forall|i: int| 0 <= i < s.len() ==> is_digit(#[trigger] s[i])
}

/// The digits of a hardware-address text: the text without one optional leading `+`.
pub open spec fn unsigned_body(s: Seq<char>) -> Seq<char> {
    if s.len() > 0 && s[0] == '+' {
        s.drop_first()
    } else {
        s
    }
}

/// A text read as an 8-bit hardware address: an optional `+`, then one or more
/// decimal digits whose value is at most 255. Anything else reads as nothing.
pub open spec fn parse_u8_text(s: Seq<char>) -> Option<u8> {
    let body = unsigned_body(s);
    if body.len() > 0 && all_digits(body) && digits_value(body) <= 255 {
        Some(digits_value(body) as u8)
    } else {
        None
    }
}

proof fn lemma_digits_value_grows(s: Seq<char>, k: int)
    requires
        all_digits(s),
        0 <= k <= s.len(),
    ensures
        digits_value(s.take(k)) <= digits_value(s),
    decreases s.len(),
{
    if k < s.len() {
        assert(all_digits(s.drop_last())) by {
            assert forall|i: int| 0 <= i < s.drop_last().len() implies is_digit(
                #[trigger] s.drop_last()[i],
            ) by {
                assert(s.drop_last()[i] == s[i]);
            }
        }
        assert(s.drop_last().take(k) =~= s.take(k));
        lemma_digits_value_grows(s.drop_last(), k);
        assert(is_digit(s[s.len() - 1]));
    } else {
        assert(s.take(k) =~= s);
    }
}

/// Reads a hardware-address text the way an unsigned 8-bit number is parsed.
pub fn parse_hw_address(s: &str) -> (r: Option<u8>)
    ensures
        r == parse_u8_text(s@),
{
    let len = s.unicode_len();
    let mut start: usize = 0;
    if len > 0 && s.get_char(0) == '+' {
        start = 1;
    }
    let ghost body = unsigned_body(s@);
    assert(body =~= s@.subrange(start as int, len as int));
    if start >= len {
        return None;
    }
    let mut value: u32 = 0;
    let mut i: usize = start;
    while i < len
        invariant
            start <= i <= len,
            len == s@.len(),
            body == unsigned_body(s@),
            body =~= s@.subrange(start as int, len as int),
            value <= 255,
            all_digits(body.take(i - start)),
            value == digits_value(body.take(i - start)),
        decreases len - i,
    {
        let c = s.get_char(i);
        if c < '0' || c > '9' {
            assert(!is_digit(body[i - start]));
            return None;
        }
        let ghost prefix = body.take(i - start + 1);
        assert(prefix.drop_last() =~= body.take(i - start));
        assert(prefix.last() == c);
        value = value * 10 + (c as u32 - '0' as u32);
        assert(all_digits(prefix)) by {
            assert forall|j: int| 0 <= j < prefix.len() implies is_digit(#[trigger] prefix[j]) by {
                if j < prefix.len() - 1 {
                    assert(prefix[j] == body.take(i - start)[j]);
                }
            }
        }
        if value > 255 {
            proof {
                if all_digits(body) {
                    lemma_digits_value_grows(body, i - start + 1);
                }
            }
            return None;
        }
        i = i + 1;
    }
    assert(body.take(len - start) =~= body);
    Some(value as u8)
}

/// A message that edits one I/O element.
#[derive(Clone, Debug)]
pub enum IOElementMessage {
    NameInputChanged(String),
    FrameTypeSelected(FrameTypes),
    SignalTypeSelected(SignalTypes),
    HwSelected(String),
    DeleteElement,
}

/// One named binary signal.
#[derive(Debug, PartialEq, Eq)]
pub struct IOElement {
    pub name: String,
    pub frame_type: FrameTypes,
    pub signal_type: SignalTypes,
    pub hw_address: u8,
}

impl Clone for IOElement {
    fn clone(&self) -> (r: Self)
        ensures
            r == *self,
    {
        IOElement {
            name: self.name.clone(),
            frame_type: self.frame_type,
            signal_type: self.signal_type,
            hw_address: self.hw_address,
        }
    }
}

impl IOElement {
    pub fn new() -> (r: Self)
        ensures
            r.is_blank(),
    {
        IOElement {
            name: String::new(),
            frame_type: FrameTypes::State,
            signal_type: SignalTypes::Input,
            hw_address: 0,
        }
    }

    /// The element after one edit.
    pub open spec fn edited(self, message: IOElementMessage) -> IOElement {
        match message {
            IOElementMessage::NameInputChanged(name) => IOElement { name, ..self },
            IOElementMessage::FrameTypeSelected(f) => IOElement { frame_type: f, ..self },
            IOElementMessage::SignalTypeSelected(t) => IOElement { signal_type: t, ..self },
            IOElementMessage::HwSelected(hw) => match parse_u8_text(hw@) {
                Some(a) => IOElement { hw_address: a, ..self },
                None => self,
            },
            IOElementMessage::DeleteElement => self,
        }
    }

    /// A freshly made element: no name, a state input at address 0.
    pub open spec fn is_blank(self) -> bool {
        &&& self.name@ == Seq::<char>::empty()
        &&& self.frame_type == FrameTypes::State
        &&& self.signal_type == SignalTypes::Input
        &&& self.hw_address == 0
    }

    /// Applies one edit. A hardware address that does not read as a number from
    /// 0 to 255 leaves the old one; deletion is the registry's business.
    pub fn update(&mut self, message: IOElementMessage)
        ensures
            *final(self) == old(self).edited(message),
    {
        match message {
            IOElementMessage::NameInputChanged(name) => {
                self.name = name;
            },
            IOElementMessage::FrameTypeSelected(frame_type) => {
                self.frame_type = frame_type;
            },
            IOElementMessage::SignalTypeSelected(signal_type) => {
                self.signal_type = signal_type;
            },
            IOElementMessage::HwSelected(hw) => {
                match parse_hw_address(hw.as_str()) {
                    Some(a) => {
                        self.hw_address = a;
                    },
                    None => {},
                }
            },
            IOElementMessage::DeleteElement => {},
        }
    }

    pub fn get_data(&self) -> (r: (String, FrameTypes, SignalTypes, u8))
        ensures
            r.0 == self.name,
            r.1 == self.frame_type,
            r.2 == self.signal_type,
            r.3 == self.hw_address,
    {
        (self.name.clone(), self.frame_type, self.signal_type, self.hw_address)
    }
}

/// A message that edits the registry: adds an element, or edits or deletes the
/// element at an index.
#[derive(Clone, Debug)]
pub enum IOConfigMessage {
    AddNewElement,
    IOElementMessage(usize, IOElementMessage),
}

/// The last element of `elements` that bears `name`.
pub open spec fn last_named(elements: Seq<IOElement>, name: Seq<char>) -> Option<IOElement>
    decreases elements.len(),
{
    if elements.len() == 0 {
        None
    } else if elements.last().name@ == name {
        Some(elements.last())
    } else {
        last_named(elements.drop_last(), name)
    }
}

/// Whether some element of `elements` bears `name` and belongs to `frame`.
pub open spec fn names_in_frame(elements: Seq<IOElement>, name: Seq<char>, frame: FrameTypes) -> bool {
    exists|k: int| 0 <= k < elements.len() && #[trigger] elements[k].name@ == name && elements[k].frame_type == frame
}

pub open spec fn in_frame(frame: FrameTypes) -> spec_fn(IOElement) -> bool {
    |e: IOElement| e.frame_type == frame
}

pub open spec fn in_signal(signal: SignalTypes) -> spec_fn(IOElement) -> bool {
    |e: IOElement| e.signal_type == signal
}

/// Which elements a query keeps.
enum Selector {
    Frame(FrameTypes),
    Signal(SignalTypes),
}

impl Selector {
    spec fn selects(self) -> spec_fn(IOElement) -> bool {
        match self {
            Selector::Frame(f) => in_frame(f),
            Selector::Signal(t) => in_signal(t),
        }
    }
}

/// The registry of I/O elements, in the order they were added.
#[derive(Clone, Debug)]
pub struct IOConfig {
    pub elements: Vec<IOElement>,
}

impl IOConfig {
    pub fn new() -> (r: Self)
        ensures
            r.elements@ == Seq::<IOElement>::empty(),
    {
        IOConfig { elements: Vec::new() }
    }

    pub fn add_new_element(&mut self, element: IOElement)
        ensures
            final(self).elements@ == old(self).elements@.push(element),
    {
        self.elements.push(element);
    }

    fn filtered(&self, by: Selector) -> (r: Vec<IOElement>)
        ensures
            r@ == self.elements@.filter(by.selects()),
    {
        let mut r: Vec<IOElement> = Vec::new();
        let mut i: usize = 0;
        while i < self.elements.len()
            invariant
                i <= self.elements.len(),
                r@ == self.elements@.take(i as int).filter(by.selects()),
            decreases self.elements.len() - i,
        {
            let e = &self.elements[i];
            let keep = match by {
                Selector::Frame(f) => e.frame_type == f,
                Selector::Signal(t) => e.signal_type == t,
            };
            proof {
                assert(self.elements@.take(i + 1) =~= self.elements@.take(i as int).push(*e));
                self.elements@.take(i as int).lemma_filter_push(*e, by.selects());
            }
            if keep {
                r.push(e.clone());
            }
            i = i + 1;
        }
        assert(self.elements@.take(i as int) =~= self.elements@);
        r
    }

    /// The elements of one frame, in registry order.
    pub fn get_elements_by_frame_type(&self, frame_type: FrameTypes) -> (r: Vec<IOElement>)
        ensures
            r@ == self.elements@.filter(in_frame(frame_type)),
    {
        self.filtered(Selector::Frame(frame_type))
    }

    /// The elements of one signal direction, in registry order.
    pub fn get_elements_by_signal_type(&self, signal_type: SignalTypes) -> (r: Vec<IOElement>)
        ensures
            r@ == self.elements@.filter(in_signal(signal_type)),
    {
        self.filtered(Selector::Signal(signal_type))
    }

    /// The last element that bears `name`, if any does.
    pub fn get_elelment_by_name(&self, name: String) -> (r: Option<IOElement>)
        ensures
            r == last_named(self.elements@, name@),
    {
        let mut found: Option<IOElement> = None;
        let mut i: usize = 0;
        while i < self.elements.len()
            invariant
                i <= self.elements.len(),
                found == last_named(self.elements@.take(i as int), name@),
            decreases self.elements.len() - i,
        {
            assert(self.elements@.take(i + 1).drop_last() =~= self.elements@.take(i as int));
            if self.elements[i].name == name {
                found = Some(self.elements[i].clone());
            }
            i = i + 1;
        }
        assert(self.elements@.take(i as int) =~= self.elements@);
        found
    }

    /// Whether some element bears `name` and belongs to `frame`.
    pub fn has_element(&self, name: &String, frame: FrameTypes) -> (r: bool)
        ensures
            r == names_in_frame(self.elements@, name@, frame),
    {
        let mut i: usize = 0;
        while i < self.elements.len()
            invariant
                i <= self.elements.len(),
                forall|k: int| 0 <= k < i ==> !(#[trigger] self.elements@[k].name@ == name@
                    && self.elements@[k].frame_type == frame),
            decreases self.elements.len() - i,
        {
            if self.elements[i].frame_type == frame && self.elements[i].name == *name {
                return true;
            }
            i = i + 1;
        }
        false
    }

    pub fn get_all_elelments(&self) -> (r: Vec<IOElement>)
        ensures
            r@ == self.elements@,
    {
        self.elements.clone()
    }

    pub fn get_elemnt_by_id(&self, id: usize) -> (r: IOElement)
        requires
            id < self.elements.len(),
        ensures
            r == self.elements@[id as int],
    {
        self.elements[id].clone()
    }

    pub fn get_last_element(&self) -> (r: IOElement)
        requires
            self.elements.len() > 0,
        ensures
            r == self.elements@.last(),
    {
        self.elements[self.elements.len() - 1].clone()
    }

    /// Applies one edit: appends a blank element, or deletes or edits the
    /// element at an index, which must exist.
    pub fn update(&mut self, message: IOConfigMessage)
        requires
            message matches IOConfigMessage::IOElementMessage(i, _) ==> i < old(self).elements.len(),
        ensures
            match message {
                IOConfigMessage::AddNewElement => {
                    &&& final(self).elements@ == old(self).elements@.push(final(self).elements@.last())
                    &&& final(self).elements@.last().is_blank()
                },
                IOConfigMessage::IOElementMessage(i, IOElementMessage::DeleteElement) => {
                    final(self).elements@ == old(self).elements@.remove(i as int)
                },
                IOConfigMessage::IOElementMessage(i, m) => {
                    final(self).elements@ == old(self).elements@.update(i as int, old(self).elements@[i as int].edited(m))
                },
            },
    {
        match message {
            IOConfigMessage::IOElementMessage(i, message) => {
                match message {
                    IOElementMessage::DeleteElement => {
                        self.elements.remove(i);
                    },
                    _ => {
                        self.elements[i].update(message);
                    },
                }
            },
            IOConfigMessage::AddNewElement => {
                self.add_new_element(IOElement::new());
            },
        }
    }
}

} // verus!
