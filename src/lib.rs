//! A local reverse proxy between a serverless runtime's control API and a
//! handler process: the decisions it makes, with their contracts.
//!
//! The library does no I/O itself. Its state machines say what to do next
//! (bind a port, spawn a process, open an upstream connection, send a
//! request) and take back what happened; the code that runs them performs
//! each step and reports the outcome.

pub mod command;
pub mod launch;
pub mod port_text;
pub mod proxy;
pub mod upstream;

pub use command::{HandlerCommand, StdioMode};
pub use launch::{Launch, LaunchAction, LaunchError, LaunchEvent, RunningProxy};
pub use port_text::{parse_port, port_to_string};
pub use proxy::{
    proxy_address_string, LaunchPlan, Proxy, ProxyError, DEFAULT_PORT, LOOPBACK_HOST, PROXY_PORT_VAR,
    RUNTIME_API_VAR,
};
pub use upstream::{
    ForwardError, UpstreamAction, UpstreamEvent, UpstreamResponse, UpstreamSession,
};
