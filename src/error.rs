//! The library's error taxonomy.
use vstd::prelude::*;

verus! {

/// What went wrong, by kind.
#[derive(Debug, Clone, PartialEq, Eq)]
pub enum URError {
    Connection(String),
    Config(String),
    Protocol(String),
    RobotState(String),
    Timeout,
    Aborted,
    Rejected(String),
    Service(String),
    /// A URScript submission held no executable line.
    EmptyBlock,
}

} // verus!
