//! Publishers of telemetry that need no transport.
use vstd::prelude::*;

verus! {

/// A publisher that drops everything.
#[derive(Debug, Clone, Copy)]
pub struct NoOpTelemetry;

/// A publisher that writes each message to the console.
#[derive(Debug, Clone, Copy)]
pub struct ConsoleTelemetry {
    pub pretty_print: bool,
}

impl ConsoleTelemetry {
    /// One JSON document per line.
    pub fn new() -> (t: ConsoleTelemetry)
        ensures
            !t.pretty_print,
    {
        ConsoleTelemetry { pretty_print: false }
    }

    /// Indented JSON.
    pub fn pretty() -> (t: ConsoleTelemetry)
        ensures
            t.pretty_print,
    {
        ConsoleTelemetry { pretty_print: true }
    }
}

impl Default for ConsoleTelemetry {
    fn default() -> (t: ConsoleTelemetry)
        ensures
            !t.pretty_print,
    {
        ConsoleTelemetry::new()
    }
}

/// One block's state change, as published.
#[derive(Debug, Clone)]
pub struct BlockExecutionData {
    pub block_id: u32,
    /// `queued`, `started`, `completed` or `rejected`.
    pub status: String,
    pub command: String,
    pub execution_time_ms: Option<u64>,
}

} // verus!
