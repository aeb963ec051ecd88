//! Daemon configuration: the keyed document's sections and their defaults.
use vstd::prelude::*;

verus! {

#[derive(Debug, Clone, Copy, PartialEq, Eq, Structural)]
pub struct PortConfig {
    pub primary: u16,
    pub rtde: u16,
    pub dashboard: u16,
}

#[derive(Debug, Clone)]
pub struct DaemonRobotConfig {
    pub config_path: String,
}

#[derive(Debug, Clone, Copy, PartialEq, Eq, Structural)]
pub struct PublishingConfig {
    pub pub_rate_hz: u32,
    pub decimal_places: Option<u32>,
}

#[derive(Debug, Clone)]
pub struct CommandConfig {
    pub monitor_execution: bool,
    pub stream_robot_state: String,
}

#[derive(Debug, Clone, Copy, PartialEq, Eq, Structural)]
pub struct InterpreterConfig {
    pub clear_buffer_limit: Option<u32>,
    pub execution_timeout_seconds: Option<u64>,
    pub enable_monitoring: Option<bool>,
    pub max_concurrent_commands: Option<u32>,
    pub initialization_timeout_seconds: Option<u64>,
}

#[derive(Debug, Clone)]
pub struct DaemonConfig {
    pub robot: DaemonRobotConfig,
    pub publishing: PublishingConfig,
    pub command: CommandConfig,
    pub interpreter: Option<InterpreterConfig>,
}

/// Settings of the demo transport: where its topics live.
#[derive(Debug, Clone)]
pub struct ZenohConfig {
    pub topic_prefix: String,
}

/// The value of an optional setting, or its default.
pub open spec fn or_default<T>(v: Option<T>, d: T) -> T {
    match v {
        Some(x) => x,
        None => d,
    }
}

impl Default for InterpreterConfig {
    fn default() -> (c: InterpreterConfig)
        ensures
            c.clear_buffer_limit == Some(500u32),
            c.execution_timeout_seconds == Some(30u64),
            c.enable_monitoring == Some(true),
            c.max_concurrent_commands == Some(10u32),
            c.initialization_timeout_seconds == Some(30u64),
    {
        InterpreterConfig {
            clear_buffer_limit: Some(500),
            execution_timeout_seconds: Some(30),
            enable_monitoring: Some(true),
            max_concurrent_commands: Some(10),
            initialization_timeout_seconds: Some(30),
        }
    }
}

impl InterpreterConfig {
    /// Submissions between two buffer clears (default 500).
    pub fn clear_buffer_limit(&self) -> (r: u32)
        ensures
            r == or_default(self.clear_buffer_limit, 500u32),
    {
        match self.clear_buffer_limit {
            Some(v) => v,
            None => 500,
        }
    }

    pub fn execution_timeout(&self) -> (r: u64)
        ensures
            r == or_default(self.execution_timeout_seconds, 30u64),
    {
        match self.execution_timeout_seconds {
            Some(v) => v,
            None => 30,
        }
    }

    pub fn monitoring_enabled(&self) -> (r: bool)
        ensures
            r == or_default(self.enable_monitoring, true),
    {
        match self.enable_monitoring {
            Some(v) => v,
            None => true,
        }
    }

    pub fn max_concurrent(&self) -> (r: u32)
        ensures
            r == or_default(self.max_concurrent_commands, 10u32),
    {
        match self.max_concurrent_commands {
            Some(v) => v,
            None => 10,
        }
    }

    /// Seconds to keep retrying the interpreter connection (default 30).
    pub fn initialization_timeout(&self) -> (r: u64)
        ensures
            r == or_default(self.initialization_timeout_seconds, 30u64),
    {
        match self.initialization_timeout_seconds {
            Some(v) => v,
            None => 30,
        }
    }
}

impl PublishingConfig {
    /// Decimal places of published values (default 4).
    pub fn decimal_places(&self) -> (r: u32)
        ensures
            r == or_default(self.decimal_places, 4u32),
    {
        match self.decimal_places {
            Some(v) => v,
            None => 4,
        }
    }
}

impl CommandConfig {
    /// Robot state is streamed only on change when the setting is `dynamic`.
    pub fn dynamic_mode(&self) -> (r: bool)
        ensures
            r == (self.stream_robot_state@ == "dynamic"@),
    {
        crate::text::str_eq(self.stream_robot_state.as_str(), "dynamic")
    }
}

impl DaemonConfig {
    /// The interpreter section, or its defaults when it is absent.
    pub fn interpreter(&self) -> (r: InterpreterConfig)
        ensures
            self.interpreter matches Some(c) ==> r == c,
            self.interpreter is None ==> r == (InterpreterConfig {
                clear_buffer_limit: Some(500u32),
                execution_timeout_seconds: Some(30u64),
                enable_monitoring: Some(true),
                max_concurrent_commands: Some(10u32),
                initialization_timeout_seconds: Some(30u64),
            }),
    {
        match self.interpreter {
            Some(c) => c,
            None => InterpreterConfig::default(),
        }
    }
}

/// The transport settings of the demo daemon: always on, under `urd/robot`.
pub fn get_zenoh_config() -> (r: Option<ZenohConfig>)
    ensures
        r matches Some(c) && c.topic_prefix@ == "urd/robot"@,
{
    Some(ZenohConfig { topic_prefix: String::from_str("urd/robot") })
}

} // verus!
