//! Results of control verbs, and the buffer-clear protocol that `@clear`,
//! `@halt` and the auto-clear run.
use vstd::prelude::*;
use crate::execution::URScriptResult;

verus! {

/// `serde_json::Value`, carried opaquely as the structured data of a verb's result.
#[verifier::external_type_specification]
#[verifier::external_body]
pub struct ExJsonValue(serde_json::Value);

#[derive(Debug, Clone)]
pub enum CommandStatus {
    Completed,
    Failed(String),
}

/// Outcome of a control verb.
#[derive(Debug, Clone)]
pub struct CommandResult {
    pub command: String,
    pub status: CommandStatus,
    /// Structured data the verb reports, if any.
    pub data: Option<serde_json::Value>,
}

/// Outcome of any submission.
#[derive(Debug, Clone)]
pub enum CommandExecutionResult {
    URScript(URScriptResult),
    Command(CommandResult),
}

pub open spec fn unknown_message(verb: Seq<char>) -> Seq<char> {
    "Unknown command: "@ + verb
}

/// The result of a control command whose verb is not known.
pub fn unknown_command(command: &str, verb: &str) -> (r: CommandResult)
    ensures
        r.command@ == command@,
        r.status matches CommandStatus::Failed(m) && m@ == unknown_message(verb@),
        r.data is None,
{
    let mut m = String::from_str("Unknown command: ");
    m.append(verb);
    proof {
        reveal_strlit("Unknown command: ");
    }
    CommandResult { command: String::from_str(command), status: CommandStatus::Failed(m), data: None }
}

/// The verbs `@help` lists.
pub fn help_commands() -> (r: Vec<String>)
    ensures
        r@.len() == 7,
        r@[0]@ == "@halt"@,
        r@[1]@ == "@reconnect"@,
        r@[2]@ == "@status"@,
        r@[3]@ == "@health"@,
        r@[4]@ == "@clear"@,
        r@[5]@ == "@pose"@,
        r@[6]@ == "@help"@,
{
    let mut r: Vec<String> = Vec::new();
    r.push(String::from_str("@halt"));
    r.push(String::from_str("@reconnect"));
    r.push(String::from_str("@status"));
    r.push(String::from_str("@health"));
    r.push(String::from_str("@clear"));
    r.push(String::from_str("@pose"));
    r.push(String::from_str("@help"));
    r
}

/// What the caller of a buffer clear must do next.
#[derive(Debug, Clone, Copy, PartialEq, Eq, Structural)]
pub enum ClearStep {
    /// Write `halt\n` to the primary interface.
    PrimaryHalt,
    /// Ask the interpreter for its last interpreted id.
    QueryLastInterpreted,
    /// Ask the interpreter for its last executed id.
    QueryLastExecuted,
    /// Send `clear_interpreter()`.
    SendClear,
    /// The protocol is over.
    Done,
}

/// Phases of the buffer-clear protocol.
#[derive(Debug, Clone, Copy, PartialEq, Eq, Structural)]
pub enum ClearPhase {
    Halting,
    Querying,
    Waiting,
    Clearing,
    Finished,
}

/// The buffer-clear protocol: wait until everything interpreted has
/// executed, then clear. For `@halt` the primary-interface halt comes first,
/// before any interpreter traffic.
#[derive(Debug, Clone)]
pub struct ClearRun {
    pub phase: ClearPhase,
    /// The last interpreted id, once known.
    pub target: u32,
    /// The wait ended because of an abort or shutdown.
    pub interrupted: bool,
    /// Id of the clear request, once sent.
    pub clear_id: Option<u32>,
}

impl ClearRun {
    pub fn new(halt_first: bool) -> (r: ClearRun)
        ensures
            r.phase == if halt_first {
                ClearPhase::Halting
            } else {
                ClearPhase::Querying
            },
            !r.interrupted,
            r.clear_id is None,
    {
        ClearRun {
            phase: if halt_first {
                ClearPhase::Halting
            } else {
                ClearPhase::Querying
            },
            target: 0,
            interrupted: false,
            clear_id: None,
        }
    }

    pub fn next_step(&self) -> (s: ClearStep)
        ensures
            s == match self.phase {
                ClearPhase::Halting => ClearStep::PrimaryHalt,
                ClearPhase::Querying => ClearStep::QueryLastInterpreted,
                ClearPhase::Waiting => ClearStep::QueryLastExecuted,
                ClearPhase::Clearing => ClearStep::SendClear,
                ClearPhase::Finished => ClearStep::Done,
            },
    {
        match self.phase {
            ClearPhase::Halting => ClearStep::PrimaryHalt,
            ClearPhase::Querying => ClearStep::QueryLastInterpreted,
            ClearPhase::Waiting => ClearStep::QueryLastExecuted,
            ClearPhase::Clearing => ClearStep::SendClear,
            ClearPhase::Finished => ClearStep::Done,
        }
    }

    /// The primary-interface halt has been written.
    pub fn on_primary_halted(&mut self)
        requires
            old(self).phase == ClearPhase::Halting,
        ensures
            final(self).phase == ClearPhase::Querying,
            final(self).interrupted == old(self).interrupted,
            final(self).clear_id == old(self).clear_id,
    {
        self.phase = ClearPhase::Querying;
    }

    /// The last interpreted id is known; an id of 0 needs no wait.
    pub fn on_last_interpreted(&mut self, id: u32)
        requires
            old(self).phase == ClearPhase::Querying,
        ensures
            final(self).target == id,
            final(self).phase == if id == 0 {
                ClearPhase::Clearing
            } else {
                ClearPhase::Waiting
            },
            final(self).interrupted == old(self).interrupted,
            final(self).clear_id == old(self).clear_id,
    {
        self.target = id;
        self.phase = if id == 0 {
            ClearPhase::Clearing
        } else {
            ClearPhase::Waiting
        };
    }

    /// One reading of the execution cursor during the wait.
    pub fn on_last_executed(&mut self, id: u32)
        requires
            old(self).phase == ClearPhase::Waiting,
        ensures
            final(self).target == old(self).target,
            final(self).phase == if id >= old(self).target {
                ClearPhase::Clearing
            } else {
                ClearPhase::Waiting
            },
            final(self).interrupted == old(self).interrupted,
            final(self).clear_id == old(self).clear_id,
    {
        if id >= self.target {
            self.phase = ClearPhase::Clearing;
        }
    }

    /// An abort or shutdown was seen while waiting: the clear is skipped.
    pub fn on_interrupted(&mut self)
        requires
            old(self).phase == ClearPhase::Waiting,
        ensures
            final(self).phase == ClearPhase::Finished,
            final(self).interrupted,
            final(self).clear_id is None,
            final(self).target == old(self).target,
    {
        self.phase = ClearPhase::Finished;
        self.interrupted = true;
        self.clear_id = None;
    }

    /// The interpreter answered the clear request.
    pub fn on_cleared(&mut self, clear_id: u32)
        requires
            old(self).phase == ClearPhase::Clearing,
        ensures
            final(self).phase == ClearPhase::Finished,
            final(self).clear_id == Some(clear_id),
            final(self).interrupted == old(self).interrupted,
            final(self).target == old(self).target,
    {
        self.phase = ClearPhase::Finished;
        self.clear_id = Some(clear_id);
    }
}

} // verus!
