use std::collections::HashMap;
use vstd::prelude::*;

verus! {

/// How to launch one server: program, arguments, and environment overrides
/// merged over the supervisor's own environment.
#[derive(Debug, Clone)]
pub struct StdioServerParams {
    pub command: String,
    pub args: Vec<String>,
    pub env: Option<HashMap<String, String>>,
}

/// A request to start a server, optionally under a name that must be unique
/// among the servers that are live or starting.
#[derive(Debug, Clone)]
pub struct StartRequest {
    pub params: StdioServerParams,
    pub name: Option<String>,
}

/// The identity under which a started server was registered.
#[derive(Debug, Clone)]
pub struct StartResponse {
    pub server_id: String,
    pub name: Option<String>,
}

/// A request that names one server by its id.
#[derive(Debug, Clone)]
pub struct ServerIdPayload {
    pub server_id: String,
}

pub type KillRequest = ServerIdPayload;

/// Data to deliver to a server's stdin.
#[derive(Debug, Clone)]
pub struct SendRequest {
    pub server_id: String,
    pub data: String,
}

/// The output stream a chunk was read from.
#[derive(Debug, Clone, Copy, PartialEq, Eq, Structural)]
pub enum StreamKind {
    Stdout,
    Stderr,
}

/// One notification about a server: a chunk of output, or its exit with the
/// exit code, absent when it was ended by a signal or could not be waited on.
#[derive(Debug, Clone, PartialEq, Eq)]
pub enum ServerEvent {
    Stdout(Vec<u8>),
    Stderr(Vec<u8>),
    Exit(Option<i32>),
}

} // verus!
