//! USB/IP device sharing: the wire protocol, the export registry of a server,
//! the import logic of a client, the daemon's rules and the command line's
//! decisions, as a library without input or output of its own.

pub mod api;
pub mod cli;
pub mod client;
pub mod daemon;
pub mod endian;
pub mod protocol;
pub mod scan;
pub mod server;
pub mod text;
