//! The per-request proxy service: dispatch on method, the CONNECT
//! acceptance rule, and its responses.

pub mod error;
pub mod proxy;
