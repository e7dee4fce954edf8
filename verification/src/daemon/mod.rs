//! The daemon: its configuration, whom it serves, and what it answers.

pub mod config;
pub mod device_acl;
pub mod mdns;
pub mod privileges;
pub mod run;
pub mod api_server;
