//! The gateway's verified core: how one raw WebSocket frame is read as a
//! message, and the close codes the engine uses. The socket itself is
//! I/O and lives with the runtime, which feeds raw frames through
//! `interpret_frame` and performs the local close it asks for.

use vstd::prelude::*;
use crate::error::Error;
use crate::payload::{Payload, decode_payload, wf_payload, jv_payload_ok, payload_matches_jv};
use crate::json::sp_json;

verus! {

/// The close code of a graceful local close.
pub const GRACEFUL_CLOSE_CODE: u16 = 1000;

/// The close code of the local close that forces a reconnect.
pub const RECONNECT_CLOSE_CODE: u16 = 4900;

/// What one read from the gateway yields.
#[derive(Debug, PartialEq)]
pub enum Message {
    /// A text frame that decoded to a valid payload.
    Payload(Payload),
    /// A close frame observed from the peer.
    Close { code: Option<u16>, reason: String },
    /// No payload: nothing was available, or a frame that carries none.
    Empty,
}

/// A raw frame as the transport hands it over: a text frame, a close
/// frame with its optional code and reason, or any other frame (binary,
/// ping, pong), which carries no payload.
#[derive(Debug, PartialEq)]
pub enum RawFrame {
    Text(String),
    Close(Option<(u16, String)>),
    Other,
}

/// Reads one raw frame as a message. The second component asks the
/// runtime to close the socket locally (with the graceful code), which it
/// must do exactly when a peer close was observed. A text frame decodes
/// to exactly the payload its JSON text carries; one that does not decode
/// is a protocol error that ends the attempt.
pub fn interpret_frame(f: RawFrame) -> (r: (Result<Message, Error>, bool))
    ensures
        f matches RawFrame::Text(s) ==> {
            &&& r.1 == false
            &&& (r.0 is Ok <==> (sp_json(s@) matches Some(jv) && jv_payload_ok(jv)))
            &&& (r.0 matches Ok(m) ==> m matches Message::Payload(p) && wf_payload(p) && (sp_json(
                s@,
            ) matches Some(jv) && payload_matches_jv(p, jv)))
            &&& (r.0 matches Err(e) ==> e matches Error::IllegalStateError(msg) && msg@
                == "Bad payload received from gateway: "@ + s@)
        },
        f matches RawFrame::Close(Some(cr)) ==> r == (
            Result::<Message, Error>::Ok(Message::Close { code: Some(cr.0), reason: cr.1 }),
            true,
        ),
        f matches RawFrame::Close(None) ==> {
            &&& r.1 == true
            &&& (r.0 matches Ok(m) ==> m matches Message::Close { code, reason } && code is None
                && reason@ == "Unknown"@)
            &&& r.0 is Ok
        },
        f is Other ==> r == (Result::<Message, Error>::Ok(Message::Empty), false),
{
    match f {
        RawFrame::Text(s) => {
            match decode_payload(s.as_str()) {
                Some(p) => (Ok(Message::Payload(p)), false),
                None => (
                    Err(
                        Error::IllegalStateError(
                            String::from_str("Bad payload received from gateway: ").concat(
                                s.as_str(),
                            ),
                        ),
                    ),
                    false,
                ),
            }
        }
        RawFrame::Close(Some((code, reason))) => (
            Ok(Message::Close { code: Some(code), reason }),
            true,
        ),
        RawFrame::Close(None) => (
            Ok(Message::Close { code: None, reason: String::from_str("Unknown") }),
            true,
        ),
        RawFrame::Other => (Ok(Message::Empty), false),
    }
}

} // verus!
