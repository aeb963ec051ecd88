//! Requests and descriptors exchanged with remote clients.
use vstd::prelude::*;
use std::collections::HashMap;

verus! {

/// A URScript program to run; `group` sends it as one submission.
#[derive(Debug, Clone)]
pub struct URScriptRequest {
    pub urscript: String,
    pub group: Option<bool>,
}

/// An available remote service.
#[derive(Debug, Clone)]
pub struct ServiceInfo {
    pub topic: String,
    pub name: String,
    pub description: String,
    pub request_schema: HashMap<String, String>,
    pub response_schema: HashMap<String, String>,
}

/// An available telemetry stream.
#[derive(Debug, Clone)]
pub struct PublisherInfo {
    pub topic: String,
    pub name: String,
    pub description: String,
    pub message_schema: HashMap<String, String>,
    pub rate_hz: u32,
    pub message_type: String,
}

#[derive(Debug, Clone)]
pub struct ServiceDiscoveryResponse {
    pub rpc_services: Vec<ServiceInfo>,
    pub publishers: Vec<PublisherInfo>,
    pub services: Vec<ServiceInfo>,
}

#[derive(Debug, Clone)]
pub struct AbortParameters {
    /// Why the abort was asked for.
    pub reason: Option<String>,
}

#[derive(Debug, Clone, Copy)]
pub struct AbortRequest {
    /// Seconds to wait for the abort to complete.
    pub timeout_secs: Option<u32>,
}

#[derive(Debug, Clone)]
pub struct RpcServiceStats {
    pub command_service_active: bool,
    pub supported_commands: Vec<String>,
}

} // verus!
