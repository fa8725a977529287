//! The error taxonomy: configuration and argument errors surface to the
//! caller, protocol and transport errors drive the reconnect policy, and a
//! peer close is fatal exactly for the close codes Discord documents as
//! permanent misconfiguration.

use vstd::prelude::*;
use crate::retry::RetryableError;

verus! {

/// Everything this library can fail with.
#[derive(Debug, Clone, PartialEq)]
pub enum Error {
    /// Invalid token or base URL, found before connecting.
    ConfigurationError(String),
    /// Bad input: a path that cannot be appended, a bad URL.
    IllegalArgumentError(String),
    /// A protocol violation was observed.
    IllegalStateError(String),
    /// A REST or transport failure.
    HttpError(String),
    /// A WebSocket transport failure.
    WebSocketError(String),
    /// A socket I/O failure.
    IOError(String),
    /// The peer closed the connection, or a local close was observed.
    WebSocketClosed { code: Option<u16>, reason: String },
}

/// The single human-readable line an error displays as: its carried
/// message, or `<code>: <reason>` for a peer close.
pub open spec fn spec_error_message(e: Error) -> Seq<char> {
    match e {
        Error::ConfigurationError(m) => m@,
        Error::IllegalArgumentError(m) => m@,
        Error::IllegalStateError(m) => m@,
        Error::HttpError(m) => m@,
        Error::WebSocketError(m) => m@,
        Error::IOError(m) => m@,
        Error::WebSocketClosed { code, reason } => match code {
            Some(c) => crate::text::spec_dec_text(c as nat) + ": "@ + reason@,
            None => "unknown: "@ + reason@,
        },
    }
}

impl Error {
    /// An `IllegalStateError` carrying the given message.
    pub fn illegal_state(msg: &str) -> (r: Error)
        ensures
            r matches Error::IllegalStateError(m) && m@ == msg@,
    {
        Error::IllegalStateError(msg.to_owned())
    }

    /// This error as a single human-readable line.
    pub fn message(&self) -> (r: String)
        ensures
            r@ == spec_error_message(*self),
    {
        match self {
            Error::ConfigurationError(m) => m.clone(),
            Error::IllegalArgumentError(m) => m.clone(),
            Error::IllegalStateError(m) => m.clone(),
            Error::HttpError(m) => m.clone(),
            Error::WebSocketError(m) => m.clone(),
            Error::IOError(m) => m.clone(),
            Error::WebSocketClosed { code, reason } => {
                let mut out: Vec<char> = Vec::new();
                match code {
                    Some(c) => {
                        crate::text::push_dec_u64(&mut out, *c as u64);
                    }
                    None => {
                        let u: Vec<char> = crate::text::chars_of("unknown");
                        let mut i: usize = 0;
                        while i < u.len()
                            invariant
                                u@ == "unknown"@,
                                i <= u@.len(),
                                out@ == "unknown"@.take(i as int),
                            decreases u@.len() - i,
                        {
                            out.push(u[i]);
                            proof {
                                assert(out@ =~= "unknown"@.take(i + 1 as int));
                            }
                            i = i + 1;
                        }
                        proof {
                            assert("unknown"@.take("unknown"@.len() as int) =~= "unknown"@);
                        }
                    }
                }
                out.push(':');
                out.push(' ');
                let rc: Vec<char> = crate::text::chars_of(reason.as_str());
                let mut i: usize = 0;
                let ghost head = out@;
                while i < rc.len()
                    invariant
                        rc@ == reason@,
                        i <= rc@.len(),
                        out@ == head + reason@.take(i as int),
                    decreases rc@.len() - i,
                {
                    out.push(rc[i]);
                    proof {
                        assert(out@ =~= head + reason@.take(i + 1 as int));
                    }
                    i = i + 1;
                }
                proof {
                    reveal_strlit(": ");
                    reveal_strlit("unknown: ");
                    reveal_strlit("unknown");
                    assert(reason@.take(reason@.len() as int) =~= reason@);
                    assert(out@ =~= spec_error_message(*self));
                }
                crate::text::chars_to_string(&out)
            }
        }
    }
}

/// Whether a close code signals permanent misconfiguration: authentication
/// failed, invalid shard, sharding required, invalid API version, invalid
/// intents, disallowed intents.
pub open spec fn spec_fatal_code(code: u16) -> bool {
    code == 4004 || code == 4010 || code == 4011 || code == 4012 || code == 4013 || code == 4014
}

/// An error ends the run loop exactly when it is a peer close whose code
/// is one of the fatal close codes.
pub open spec fn spec_error_fatal(e: Error) -> bool {
    e matches Error::WebSocketClosed { code: Some(c), .. } && spec_fatal_code(c)
}

impl RetryableError for Error {
    open spec fn spec_is_fatal(&self) -> bool {
        spec_error_fatal(*self)
    }

    fn is_fatal(&self) -> (r: bool) {
        match self {
            Error::WebSocketClosed { code: Some(c), .. } => {
                *c == 4004 || *c == 4010 || *c == 4011 || *c == 4012 || *c == 4013 || *c == 4014
            }
            _ => false,
        }
    }
}

/// The fatal close codes are exactly {4004, 4010, 4011, 4012, 4013, 4014}:
/// a `WebSocketClosed` with one of them is fatal, every other error is not.
pub proof fn lemma_fatal_close_codes(e: Error)
    ensures
        spec_error_fatal(e) <==> (e matches Error::WebSocketClosed { code: Some(c), .. } && (c
            == 4004 || c == 4010 || c == 4011 || c == 4012 || c == 4013 || c == 4014)),
        !(e matches Error::WebSocketClosed { .. }) ==> !spec_error_fatal(e),
{
}

} // verus!
