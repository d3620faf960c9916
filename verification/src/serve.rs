//! The accept loop's decisions: screening a new connection by its first
//! byte, and classifying accept errors.

use vstd::prelude::*;

use crate::error::IoErrorKind;

verus! {

/// Whether a byte can begin an HTTP request line the proxy serves: the
/// initial of GET, HEAD, POST, DELETE, CONNECT, OPTIONS or TRACE, in
/// either case.
pub open spec fn spec_is_http_verb_initial(b: u8) -> bool {
    ||| b == 71  // G
    ||| b == 103  // g
    ||| b == 72  // H
    ||| b == 104  // h
    ||| b == 80  // P
    ||| b == 112  // p
    ||| b == 68  // D
    ||| b == 100  // d
    ||| b == 67  // C
    ||| b == 99  // c
    ||| b == 79  // O
    ||| b == 111  // o
    ||| b == 84  // T
    ||| b == 116  // t
}

pub fn is_http_verb_initial(b: u8) -> (r: bool)
    ensures
        r == spec_is_http_verb_initial(b),
{
    b == 71 || b == 103 || b == 72 || b == 104 || b == 80 || b == 112 || b == 68 || b == 100 || b
        == 67 || b == 99 || b == 79 || b == 111 || b == 84 || b == 116
}

/// What the one-byte peek of a fresh connection produced.
#[derive(Clone, Copy, Debug, PartialEq, Eq, Structural)]
pub enum PeekOutcome {
    /// The first byte, left unconsumed.
    Byte(u8),
    /// The peer closed before sending anything.
    Empty,
    /// The peek itself failed.
    Failed(IoErrorKind),
}

/// Whether a fresh connection is served or dropped.
#[derive(Clone, Copy, Debug, PartialEq, Eq, Structural)]
pub enum ConnDecision {
    Serve,
    Drop,
}

/// Screen a connection by its peeked first byte: serve it only when that
/// byte can begin a recognized HTTP verb.
pub fn screen_connection(peek: PeekOutcome) -> (r: ConnDecision)
    ensures
        r == match peek {
            PeekOutcome::Byte(b) => if spec_is_http_verb_initial(b) {
                ConnDecision::Serve
            } else {
                ConnDecision::Drop
            },
            PeekOutcome::Empty => ConnDecision::Drop,
            PeekOutcome::Failed(_) => ConnDecision::Drop,
        },
{
    match peek {
        PeekOutcome::Byte(b) => {
            if is_http_verb_initial(b) {
                ConnDecision::Serve
            } else {
                ConnDecision::Drop
            }
        },
        PeekOutcome::Empty => ConnDecision::Drop,
        PeekOutcome::Failed(_) => ConnDecision::Drop,
    }
}

/// The transient kinds an accept retries silently.
pub open spec fn spec_is_connection_error(kind: IoErrorKind) -> bool {
    ||| kind == IoErrorKind::ConnectionRefused
    ||| kind == IoErrorKind::ConnectionAborted
    ||| kind == IoErrorKind::ConnectionReset
}

pub fn is_connection_error(kind: IoErrorKind) -> (r: bool)
    ensures
        r == spec_is_connection_error(kind),
{
    match kind {
        IoErrorKind::ConnectionRefused => true,
        IoErrorKind::ConnectionAborted => true,
        IoErrorKind::ConnectionReset => true,
        _ => false,
    }
}

/// What the accept loop does after a failed accept.
#[derive(Clone, Copy, Debug, PartialEq, Eq, Structural)]
pub enum AcceptErrorAction {
    /// Refused, aborted or reset: retry at once, saying nothing.
    RetrySilently,
    /// Anything else: log it and pause accepting this long (nanoseconds).
    LogAndPause(u64),
}

/// The pause after a non-transient accept error: 1 second.
pub const ACCEPT_ERROR_PAUSE_NS: u64 = 1_000_000_000;

/// Classify a failed accept: transient connection errors are retried
/// silently; any other error logs and pauses for one second, so a
/// persistent fault cannot spin the loop.
pub fn accept_error_action(kind: IoErrorKind) -> (r: AcceptErrorAction)
    ensures
        spec_is_connection_error(kind) ==> r == AcceptErrorAction::RetrySilently,
        !spec_is_connection_error(kind) ==> r == AcceptErrorAction::LogAndPause(
            ACCEPT_ERROR_PAUSE_NS,
        ),
{
    if is_connection_error(kind) {
        AcceptErrorAction::RetrySilently
    } else {
        AcceptErrorAction::LogAndPause(ACCEPT_ERROR_PAUSE_NS)
    }
}

} // verus!
