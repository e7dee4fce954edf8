//! The command line: what it asks of the daemon, and what it shows.

pub mod client;
pub mod command;
pub mod output;
pub mod tls_gen;
