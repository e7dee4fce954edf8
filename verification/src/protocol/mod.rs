//! The USB/IP wire protocol.

pub mod buf;
pub mod codec;
pub mod codes;
pub mod debug;
pub mod device;
pub mod discovery;
pub mod error;
pub mod layout;
pub mod urb;
pub mod wire;
