//! The outbound-connection subsystem: resolved-address handling, the
//! connector configuration, Happy-Eyeballs planning and the per-attempt
//! sweep.

pub mod dns;
pub mod error;
pub mod tcp;
