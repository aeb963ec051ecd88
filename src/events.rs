//! Structured events about commands, errors and buffer clears. The caller
//! stamps each with the wall-clock time and writes it out.
use vstd::prelude::*;

verus! {

#[derive(Debug, Clone, Copy, PartialEq, Eq, Structural)]
pub enum CommandStatus {
    Sent,
    Completed,
    Failed,
}

#[derive(Debug, Clone)]
pub struct CommandStatusEvent {
    pub event_type: String,
    pub command_id: u32,
    pub status: CommandStatus,
    pub message: String,
    pub command: Option<String>,
}

#[derive(Debug, Clone)]
pub struct ErrorEvent {
    pub event_type: String,
    pub command_id: Option<u32>,
    pub error: String,
}

#[derive(Debug, Clone, Copy, PartialEq, Eq, Structural)]
pub enum BufferEventType {
    ClearRequested,
    ClearCompleted,
}

#[derive(Debug, Clone, Copy, PartialEq, Eq)]
pub struct BufferEvent {
    pub event: BufferEventType,
    pub commands_processed: u32,
    pub clear_id: Option<u32>,
}

/// The view of an optional string.
pub open spec fn opt_view(s: Option<String>) -> Option<Seq<char>> {
    match s {
        Some(x) => Some(x@),
        None => None,
    }
}

impl CommandStatusEvent {
    pub fn new(command_id: u32, status: CommandStatus, message: &str, command: Option<String>) -> (e: CommandStatusEvent)
        ensures
            e.event_type@ == "command_status"@,
            e.command_id == command_id,
            e.status == status,
            e.message@ == message@,
            e.command == command,
    {
        CommandStatusEvent {
            event_type: String::from_str("command_status"),
            command_id,
            status,
            message: String::from_str(message),
            command,
        }
    }

    pub fn sent(command_id: u32, command: &str) -> (e: CommandStatusEvent)
        ensures
            e.event_type@ == "command_status"@,
            e.command_id == command_id,
            e.status == CommandStatus::Sent,
            e.message@ == "Command sent to interpreter"@,
            opt_view(e.command) == Some(command@),
    {
        CommandStatusEvent::new(
            command_id,
            CommandStatus::Sent,
            "Command sent to interpreter",
            Some(String::from_str(command)),
        )
    }

    pub fn completed(command_id: u32) -> (e: CommandStatusEvent)
        ensures
            e.event_type@ == "command_status"@,
            e.command_id == command_id,
            e.status == CommandStatus::Completed,
            e.message@ == "Command execution finished"@,
            e.command is None,
    {
        CommandStatusEvent::new(command_id, CommandStatus::Completed, "Command execution finished", None)
    }

    pub fn failed(command_id: u32, error_msg: &str) -> (e: CommandStatusEvent)
        ensures
            e.event_type@ == "command_status"@,
            e.command_id == command_id,
            e.status == CommandStatus::Failed,
            e.message@ == error_msg@,
            e.command is None,
    {
        CommandStatusEvent::new(command_id, CommandStatus::Failed, error_msg, None)
    }
}

impl ErrorEvent {
    pub fn new(error: &str, command_id: Option<u32>) -> (e: ErrorEvent)
        ensures
            e.event_type@ == "error"@,
            e.command_id == command_id,
            e.error@ == error@,
    {
        ErrorEvent { event_type: String::from_str("error"), command_id, error: String::from_str(error) }
    }

    pub fn safety_violation(error: &str) -> (e: ErrorEvent)
        ensures
            e.event_type@ == "safety_violation"@,
            e.command_id is None,
            e.error@ == error@,
    {
        ErrorEvent {
            event_type: String::from_str("safety_violation"),
            command_id: None,
            error: String::from_str(error),
        }
    }

    pub fn command_error(command_id: u32, error: &str) -> (e: ErrorEvent)
        ensures
            e.event_type@ == "error"@,
            e.command_id == Some(command_id),
            e.error@ == error@,
    {
        ErrorEvent::new(error, Some(command_id))
    }
}

impl BufferEvent {
    pub fn new(event: BufferEventType, commands_processed: u32, clear_id: Option<u32>) -> (e: BufferEvent)
        ensures
            e.event == event,
            e.commands_processed == commands_processed,
            e.clear_id == clear_id,
    {
        BufferEvent { event, commands_processed, clear_id }
    }

    pub fn clear_requested(commands_processed: u32) -> (e: BufferEvent)
        ensures
            e == (BufferEvent { event: BufferEventType::ClearRequested, commands_processed, clear_id: None }),
    {
        BufferEvent::new(BufferEventType::ClearRequested, commands_processed, None)
    }

    pub fn clear_completed(commands_processed: u32, clear_id: u32) -> (e: BufferEvent)
        ensures
            e == (BufferEvent {
                event: BufferEventType::ClearCompleted,
                commands_processed,
                clear_id: Some(clear_id),
            }),
    {
        BufferEvent::new(BufferEventType::ClearCompleted, commands_processed, Some(clear_id))
    }
}

/// A statement was sent to the interpreter.
pub fn command_sent(command_id: u32, command: &str) -> (e: CommandStatusEvent)
    ensures
        e.command_id == command_id,
        e.status == CommandStatus::Sent,
        e.message@ == "Command sent to interpreter"@,
        opt_view(e.command) == Some(command@),
{
    CommandStatusEvent::sent(command_id, command)
}

/// A statement finished executing.
pub fn command_completed(command_id: u32) -> (e: CommandStatusEvent)
    ensures
        e.command_id == command_id,
        e.status == CommandStatus::Completed,
        e.message@ == "Command execution finished"@,
        e.command is None,
{
    CommandStatusEvent::completed(command_id)
}

/// A statement failed.
pub fn command_failed(command_id: u32, error: &str) -> (e: CommandStatusEvent)
    ensures
        e.command_id == command_id,
        e.status == CommandStatus::Failed,
        e.message@ == error@,
        e.command is None,
{
    CommandStatusEvent::failed(command_id, error)
}

/// The interpreter refused a statement: it has no id.
pub fn command_rejected(command: &str, reason: &str) -> (e: CommandStatusEvent)
    ensures
        e.command_id == 0,
        e.status == CommandStatus::Failed,
        e.message@ == "Command rejected: "@ + reason@,
        opt_view(e.command) == Some(command@),
{
    let mut message = String::from_str("Command rejected: ");
    message.append(reason);
    CommandStatusEvent::new(0, CommandStatus::Failed, message.as_str(), Some(String::from_str(command)))
}

pub fn safety_violation(error_msg: &str) -> (e: ErrorEvent)
    ensures
        e.event_type@ == "safety_violation"@,
        e.command_id is None,
        e.error@ == error_msg@,
{
    ErrorEvent::safety_violation(error_msg)
}

pub fn command_error(command_id: u32, error_msg: &str) -> (e: ErrorEvent)
    ensures
        e.event_type@ == "error"@,
        e.command_id == Some(command_id),
        e.error@ == error_msg@,
{
    ErrorEvent::command_error(command_id, error_msg)
}

pub fn buffer_clear_requested(commands_processed: u32) -> (e: BufferEvent)
    ensures
        e == (BufferEvent { event: BufferEventType::ClearRequested, commands_processed, clear_id: None }),
{
    BufferEvent::clear_requested(commands_processed)
}

pub fn buffer_clear_completed(commands_processed: u32, clear_id: u32) -> (e: BufferEvent)
    ensures
        e == (BufferEvent {
            event: BufferEventType::ClearCompleted,
            commands_processed,
            clear_id: Some(clear_id),
        }),
{
    BufferEvent::clear_completed(commands_processed, clear_id)
}

} // verus!
