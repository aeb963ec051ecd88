//! Records of the line-by-line command stream.
use vstd::prelude::*;

verus! {

#[derive(Debug, Clone)]
pub enum CommandStatus {
    Sent,
    Completed,
    Failed(String),
}

/// A command of the stream and what became of it.
#[derive(Debug, Clone)]
pub struct CommandInfo {
    pub id: u32,
    pub command: String,
    pub status: CommandStatus,
    /// Id of the `time(0)` sentinel sent after it.
    pub termination_id: Option<u32>,
}

#[derive(Debug, Clone, Copy)]
pub struct CommandStats {
    pub total_commands: u32,
    pub pending_commands: u32,
}

} // verus!
