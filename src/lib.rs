//! Document model of a PLC sequential-control description and the encoder that
//! flattens it into a two-sheet report.

pub mod kinds;
pub mod io;
pub mod conditions;
pub mod step;
pub mod subprogram;
pub mod rules;
pub mod export;
pub mod language;
