//! The exporting side: local devices, and the registry of those on offer.

pub mod device;
pub mod error;
pub mod export;
