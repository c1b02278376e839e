//! The small closed vocabularies of the document model.
use vstd::prelude::*;

verus! {

/// Whether a signal or a condition describes a sensed state or a driven control.
#[derive(Clone, Copy, Debug, PartialEq, Eq, Structural)]
pub enum FrameTypes {
    State,
    Control,
}

/// Physical direction of a signal.
#[derive(Clone, Copy, Debug, PartialEq, Eq, Structural)]
pub enum SignalTypes {
    Input,
    Output,
}

/// How the conditions of a step are meant to combine.
#[derive(Clone, Copy, Debug, PartialEq, Eq, Structural)]
pub enum Operators {
    AND,
    OR,
}

/// Priority class of a subprogram.
#[derive(Clone, Copy, Debug, PartialEq, Eq, Structural)]
pub enum SubprogramTypes {
    Dflt,
    Critical,
    Blocked,
}

/// Logical state a condition requires of its signal.
#[derive(Clone, Copy, Debug, PartialEq, Eq, Structural)]
pub enum IOElementStates {
    Active,
    Inactive,
    Any,
}

} // verus!
