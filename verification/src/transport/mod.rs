//! Transports.

pub mod native;
