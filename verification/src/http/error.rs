//! Failures of the per-request proxy service.

use vstd::prelude::*;

use crate::error::IoErrorKind;

verus! {

/// Any failure of handling one request.
#[derive(Clone, Copy, Debug, PartialEq, Eq, Structural)]
pub enum Error {
    /// Reading or writing a stream failed.
    Io(IoErrorKind),
    /// The HTTP codec refused the bytes.
    Http,
    /// The upstream connect budget ran out.
    Timeout,
    /// The protocol upgrade for CONNECT failed.
    Upgrade,
    /// The outbound connect failed.
    Connect(crate::connect::error::Error),
}

} // verus!
