//! The importing side: remote devices, virtual ports, and the device classes.

pub mod error;
pub mod remote;
pub mod types;
pub mod vhci;
pub mod vhci_macos;
pub mod vhci_windows;
pub mod engine;
pub mod forward;
pub mod transfer;
pub mod hid;
pub mod serial;
pub mod audio;
pub mod mass_storage;
pub mod network;
pub mod reconnect;
pub mod discover;
pub mod tls;
