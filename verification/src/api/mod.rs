//! The interface between the daemon and its clients.

pub mod json;
pub mod jsonrpc;
pub mod methods;
pub mod types;
