//! Versioned envelopes of the control protocol between `driftling ctl` and
//! the daemon: every line is `{"v":N,"req":...}` or `{"v":N,"resp":...}`.
//! Versions are either equal or an error that names both, instead of an
//! obscure parse error.

use vstd::prelude::*;

verus! {

/// Version of the wire protocol; changes with every incompatible change of
/// requests or responses.
pub const PROTOCOL_VERSION: u32 = 5;

/// What the daemon does with a request line.
#[derive(Debug, Clone, Copy, PartialEq, Eq, Structural)]
pub enum RequestVerdict {
    /// Same version: decode the request and handle it.
    Accept,
    /// Another version: answer with an error naming both versions.
    Incompatible { client: u32, daemon: u32 },
    /// Not an envelope at all (a client from before the envelopes).
    NoEnvelope,
}

/// Verdict on a request line whose envelope carried version `v` (`None`:
/// the line is not an envelope).
pub fn request_verdict(v: Option<u32>) -> (r: RequestVerdict)
    ensures
        r == request_verdict_spec(v),
{
    match v {
        None => RequestVerdict::NoEnvelope,
        Some(x) => if x == PROTOCOL_VERSION {
            RequestVerdict::Accept
        } else {
            RequestVerdict::Incompatible { client: x, daemon: PROTOCOL_VERSION }
        },
    }
}

/// Why a client cannot use the daemon's answer.
#[derive(Debug, Clone, Copy, PartialEq, Eq, Structural)]
pub enum ReplyError {
    /// The answer is not an envelope.
    NoEnvelope { version: u32 },
    /// The daemon speaks another version (restart it).
    Incompatible { client: u32, daemon: u32 },
}

/// Client side: the daemon's envelope carried version `v` (`None`: no
/// envelope). Only an equal version lets the response be decoded.
pub fn reply_verdict(v: Option<u32>) -> (r: Result<(), ReplyError>)
    ensures
        r == (match v {
            None => Err(ReplyError::NoEnvelope { version: PROTOCOL_VERSION }),
            Some(x) => if x == PROTOCOL_VERSION {
                Ok(())
            } else {
                Err(ReplyError::Incompatible { client: PROTOCOL_VERSION, daemon: x })
            },
        }),
{
    match v {
        None => Err(ReplyError::NoEnvelope { version: PROTOCOL_VERSION }),
        Some(x) => if x == PROTOCOL_VERSION {
            Ok(())
        } else {
            Err(ReplyError::Incompatible { client: PROTOCOL_VERSION, daemon: x })
        },
    }
}

/// The connection stops the server only when a request of the current
/// version was decoded and it is `Quit` (a `Quit` of another version does
/// not).
pub fn stops_server(verdict: RequestVerdict, decoded_quit: bool) -> (r: bool)
    ensures
        r == (verdict == RequestVerdict::Accept && decoded_quit),
{
    match verdict {
        RequestVerdict::Accept => decoded_quit,
        _ => false,
    }
}

/// A request is handled exactly when client and daemon speak the same
/// version; every other version is told both numbers.
pub proof fn law_versions_equal_or_error(v: u32)
    ensures
        v == PROTOCOL_VERSION ==> request_verdict_spec(Some(v)) == RequestVerdict::Accept,
        v != PROTOCOL_VERSION ==> request_verdict_spec(Some(v)) == (RequestVerdict::Incompatible {
            client: v,
            daemon: PROTOCOL_VERSION,
        }),
{
}

pub open spec fn request_verdict_spec(v: Option<u32>) -> RequestVerdict {
    match v {
        None => RequestVerdict::NoEnvelope,
        Some(x) => if x == PROTOCOL_VERSION {
            RequestVerdict::Accept
        } else {
            RequestVerdict::Incompatible { client: x, daemon: PROTOCOL_VERSION }
        },
    }
}

} // verus!
