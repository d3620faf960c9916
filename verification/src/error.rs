//! The library's error model.
//!
//! I/O failures are carried as their kind: the classification is what the
//! proxy's decisions read (retry on connection errors, pause otherwise),
//! and the kinds here are the ones those decisions distinguish.

use vstd::prelude::*;

verus! {

/// The kind of an I/O failure.
#[derive(Clone, Copy, Debug, PartialEq, Eq, Structural)]
pub enum IoErrorKind {
    ConnectionRefused,
    ConnectionAborted,
    ConnectionReset,
    TimedOut,
    Interrupted,
    NotConnected,
    InvalidInput,
    Other,
}

/// A fatal error of the proxy process.
#[derive(Clone, Copy, Debug, PartialEq, Eq, Structural)]
pub enum Error {
    IOError(IoErrorKind),
}

} // verus!
