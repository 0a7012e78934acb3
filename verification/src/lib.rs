//! The transport layer of an external component for 1C: a client of a session manager over a
//! WebSocket that reconnects by itself, and hands what it receives to 1C as external events.
//!
//! Everything that decides is here, and does no input or output: what happens outside comes in as
//! plain values, and what is to be done comes out as plain values.
pub mod addin_host;
pub mod component;
pub mod headers;
pub mod json;
pub mod log_filter;
pub mod reconnect;
pub mod session;
pub mod session_integration;
pub mod session_params;
pub mod system_capability;
pub mod text;
pub mod tunnel;
