//! Failures of the outbound-connection subsystem.

use vstd::prelude::*;

use crate::error::IoErrorKind;

verus! {

/// Name resolution failed (including a cancelled lookup).
#[derive(Clone, Copy, Debug, PartialEq, Eq, Structural)]
pub struct DnsError(pub IoErrorKind);

/// The request target had no usable host.
#[derive(Clone, Copy, Debug, PartialEq, Eq, Structural)]
pub struct InvalidUriError(pub IoErrorKind);

/// A TCP connect, bind, timeout, read or write failed.
#[derive(Clone, Copy, Debug, PartialEq, Eq, Structural)]
pub struct TcpError(pub IoErrorKind);

/// Any failure of one outbound connect operation.
#[derive(Clone, Copy, Debug, PartialEq, Eq, Structural)]
pub enum Error {
    Dns(DnsError),
    InvalidUri(InvalidUriError),
    Tcp(TcpError),
}

} // verus!
