//! Verified core of a daemon that drives a Universal Robots arm: interpreter
//! replies, block execution, command dispatch and RTDE telemetry decoding.
pub mod commands;
pub mod config;
pub mod dispatch;
pub mod error;
pub mod events;
pub mod execution;
pub mod interpreter;
pub mod lifecycle;
pub mod monitor;
pub mod rpc;
pub mod rtde;
pub mod script;
pub mod stream;
pub mod telemetry;
pub mod text;
