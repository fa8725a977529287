//! The identify actor: it drives the handshake after Hello, preferring a
//! Resume when a session can be continued, capturing the session id from
//! READY, recovering from InvalidSession with a fresh Identify after a
//! pause, and forcing a reconnect when the gateway asks for one.

use vstd::prelude::*;
use crate::json::{Json, spec_get};
use crate::payload::{Op, Payload};

verus! {

/// The pause before the fresh Identify that follows an InvalidSession, in
/// milliseconds.
pub const INVALID_SESSION_PAUSE_MS: u64 = 2000;

/// The identify actor's state.
#[derive(Debug, PartialEq)]
pub struct Identify {
    /// The bot token, sent in Identify and Resume.
    pub token: String,
    /// The intents bitmask, sent in Identify.
    pub intents_bitmask: u16,
    /// The operating system name, sent in the Identify properties.
    pub os: String,
    /// The resumable session, captured from READY.
    pub session_id: Option<String>,
    /// The last observed sequence number.
    pub sequence_number: Option<u64>,
}

/// What the actor asks the runtime to do after observing one payload.
#[derive(Debug, PartialEq)]
pub enum IdentifyAction {
    /// Send this frame now.
    Send(Payload),
    /// Pause this many milliseconds, then send this frame.
    SendAfterPause { delay_ms: u64, payload: Payload },
    /// Force a reconnect.
    Reconnect,
    /// Nothing to do.
    Idle,
}

/// The shape of an Identify data object:
/// `{"token":…,"properties":{"$os":…,"$browser":…,"$device":…},"intents":…}`.
pub open spec fn is_identify_d(d: Json, token: Seq<char>, os: Seq<char>, intents: u16) -> bool {
    &&& d matches Json::Obj(m)
    &&& m@.len() == 3
    &&& m@[0].0@ == "token"@
    &&& (m@[0].1 matches Json::Str(tk) && tk@ == token)
    &&& m@[1].0@ == "properties"@
    &&& (m@[1].1 matches Json::Obj(props) && {
        &&& props@.len() == 3
        &&& props@[0].0@ == "$os"@
        &&& (props@[0].1 matches Json::Str(v) && v@ == os)
        &&& props@[1].0@ == "$browser"@
        &&& (props@[1].1 matches Json::Str(v) && v@ == "smalld_rust"@)
        &&& props@[2].0@ == "$device"@
        &&& (props@[2].1 matches Json::Str(v) && v@ == "smalld_rust"@)
    })
    &&& m@[2].0@ == "intents"@
    &&& m@[2].1 == Json::U64(intents as u64)
}

/// The shape of a Resume data object: `{"token":…,"session_id":…,"seq":…}`.
pub open spec fn is_resume_d(d: Json, token: Seq<char>, session_id: Seq<char>, seq: u64) -> bool {
    &&& d matches Json::Obj(m)
    &&& m@.len() == 3
    &&& m@[0].0@ == "token"@
    &&& (m@[0].1 matches Json::Str(tk) && tk@ == token)
    &&& m@[1].0@ == "session_id"@
    &&& (m@[1].1 matches Json::Str(vs) && vs@ == session_id)
    &&& m@[2].0@ == "seq"@
    &&& m@[2].1 == Json::U64(seq)
}

/// An Identify frame built from this state: opcode Identify, data of the
/// identify shape, no event name, no sequence.
pub open spec fn is_identify_payload(p: Payload, idf: Identify) -> bool {
    &&& p.op == Op::Identify
    &&& p.t is None
    &&& p.s is None
    &&& (p.d matches Some(d) && is_identify_d(d, idf.token@, idf.os@, idf.intents_bitmask))
}

/// A Resume frame built from this state: opcode Resume, data of the
/// resume shape, no event name, no sequence.
pub open spec fn is_resume_payload(p: Payload, idf: Identify) -> bool {
    &&& p.op == Op::Resume
    &&& p.t is None
    &&& p.s is None
    &&& (idf.session_id matches Some(sid) && idf.sequence_number matches Some(n) && (
    p.d matches Some(d) && is_resume_d(d, idf.token@, sid@, n)))
}

/// A session can be resumed exactly when both a session id and a sequence
/// number have been observed.
pub open spec fn can_resume(idf: Identify) -> bool {
    idf.session_id is Some && idf.sequence_number is Some
}

/// The session id a READY payload carries, if any.
pub open spec fn spec_ready_session(d: Json) -> Option<String> {
    match spec_get(d, "session_id"@) {
        Some(Json::Str(s)) => Some(s),
        _ => None,
    }
}

/// Whether a payload is a READY dispatch carrying data.
pub open spec fn is_ready_dispatch(p: Payload) -> bool {
    p.op == Op::Dispatch && (p.t matches Some(t) && t@ == "READY"@) && p.d is Some
}

impl Identify {
    /// A fresh actor for this token and intents bitmask; the operating
    /// system name starts out as a placeholder the runtime overrides.
    pub fn new(token: &str, intents_bitmask: u16) -> (r: Identify)
        ensures
            r.token@ == token@,
            r.intents_bitmask == intents_bitmask,
            r.os@ == "unknown"@,
            r.session_id is None,
            r.sequence_number is None,
    {
        Identify {
            token: token.to_owned(),
            intents_bitmask,
            os: String::from_str("unknown"),
            session_id: None,
            sequence_number: None,
        }
    }

    /// Sets the operating system name sent in the Identify properties.
    pub fn set_os(&mut self, os: &str)
        ensures
            final(self).os@ == os@,
            final(self).token == old(self).token,
            final(self).intents_bitmask == old(self).intents_bitmask,
            final(self).session_id == old(self).session_id,
            final(self).sequence_number == old(self).sequence_number,
    {
        self.os = os.to_owned();
    }

    /// Stores a captured session id, or clears it.
    pub fn set_session_id(&mut self, session_id: Option<String>)
        ensures
            *final(self) == (Identify { session_id, ..*old(self) }),
    {
        self.session_id = session_id;
    }

    /// Stores the last observed sequence number.
    pub fn set_sequence_number(&mut self, sequence_number: u64)
        ensures
            *final(self) == (Identify { sequence_number: Some(sequence_number), ..*old(self) }),
    {
        self.sequence_number = Some(sequence_number);
    }

    /// The Identify frame for this state.
    pub fn identify_payload(&self) -> (r: Payload)
        ensures
            is_identify_payload(r, *self),
    {
        let mut props: Vec<(String, Json)> = Vec::new();
        props.push((String::from_str("$os"), Json::Str(self.os.clone())));
        props.push((String::from_str("$browser"), Json::Str(String::from_str("smalld_rust"))));
        props.push((String::from_str("$device"), Json::Str(String::from_str("smalld_rust"))));
        let mut m: Vec<(String, Json)> = Vec::new();
        m.push((String::from_str("token"), Json::Str(self.token.clone())));
        m.push((String::from_str("properties"), Json::Obj(props)));
        m.push((String::from_str("intents"), Json::U64(self.intents_bitmask as u64)));
        Payload::op(Op::Identify).d(Json::Obj(m))
    }

    /// The Resume frame for this state; only a resumable session has one.
    pub fn resume_payload(&self) -> (r: Payload)
        requires
            can_resume(*self),
        ensures
            is_resume_payload(r, *self),
    {
        let sid: String = match &self.session_id {
            Some(s) => s.clone(),
            None => String::new(),
        };
        let seq: u64 = match self.sequence_number {
            Some(n) => n,
            None => 0,
        };
        let mut m: Vec<(String, Json)> = Vec::new();
        m.push((String::from_str("token"), Json::Str(self.token.clone())));
        m.push((String::from_str("session_id"), Json::Str(sid)));
        m.push((String::from_str("seq"), Json::U64(seq)));
        Payload::op(Op::Resume).d(Json::Obj(m))
    }

    /// Observes one payload and decides what to do: on Hello, Resume when
    /// the session can be continued, else Identify; on Reconnect, force a
    /// reconnect; on READY, capture the session id; on InvalidSession,
    /// clear the session and re-identify after the pause. Any payload
    /// carrying a sequence number stores it, a READY dispatch included.
    pub fn on_gateway_payload(&mut self, p: &Payload) -> (r: IdentifyAction)
        ensures
            identify_step(*old(self), *p, *final(self), r),
    {
        match p.op {
            Op::Hello => {
                if self.session_id.is_some() && self.sequence_number.is_some() {
                    IdentifyAction::Send(self.resume_payload())
                } else {
                    IdentifyAction::Send(self.identify_payload())
                }
            }
            Op::Reconnect => IdentifyAction::Reconnect,
            Op::InvalidSession => {
                self.session_id = None;
                IdentifyAction::SendAfterPause {
                    delay_ms: INVALID_SESSION_PAUSE_MS,
                    payload: self.identify_payload(),
                }
            }
            _ => {
                let ready: bool = match (&p.op, &p.t, &p.d) {
                    (Op::Dispatch, Some(t), Some(_)) => crate::text::str_eq(t.as_str(), "READY"),
                    _ => false,
                };
                if ready {
                    let sid: Option<String> = match &p.d {
                        Some(d) => {
                            match d.get("session_id") {
                                Some(v) => {
                                    match v.as_str() {
                                        Some(s) => Some(s.clone()),
                                        None => None,
                                    }
                                }
                                None => None,
                            }
                        }
                        None => None,
                    };
                    self.session_id = sid;
                }
                match p.s {
                    Some(n) => {
                        self.sequence_number = Some(n);
                    }
                    None => {}
                }
                IdentifyAction::Idle
            }
        }
    }
}

/// The exact step relation of the identify actor: how one observed
/// payload changes the state and what action it yields.
pub open spec fn identify_step(
    old_s: Identify,
    p: Payload,
    new_s: Identify,
    r: IdentifyAction,
) -> bool {
    if p.op == Op::Hello {
        &&& new_s == old_s
        &&& if can_resume(old_s) {
            r matches IdentifyAction::Send(pl) && is_resume_payload(pl, old_s)
        } else {
            r matches IdentifyAction::Send(pl) && is_identify_payload(pl, old_s)
        }
    } else if p.op == Op::Reconnect {
        new_s == old_s && r == IdentifyAction::Reconnect
    } else if p.op == Op::InvalidSession {
        &&& new_s == (Identify { session_id: None, ..old_s })
        &&& (r matches IdentifyAction::SendAfterPause { delay_ms, payload } && delay_ms
            == INVALID_SESSION_PAUSE_MS && is_identify_payload(payload, new_s))
    } else if is_ready_dispatch(p) {
        &&& new_s == (Identify {
            session_id: spec_ready_session(p.d->0),
            sequence_number: if p.s is Some {
                p.s
            } else {
                old_s.sequence_number
            },
            ..old_s
        })
        &&& r == IdentifyAction::Idle
    } else if p.s is Some {
        &&& new_s == (Identify { sequence_number: p.s, ..old_s })
        &&& r == IdentifyAction::Idle
    } else {
        new_s == old_s && r == IdentifyAction::Idle
    }
}

/// Resume precedence: once a session id and a sequence number have been
/// observed, a Hello is answered by a Resume carrying exactly them, never
/// by an Identify.
pub proof fn lemma_resume_precedence(
    old_s: Identify,
    p: Payload,
    new_s: Identify,
    r: IdentifyAction,
)
    requires
        identify_step(old_s, p, new_s, r),
        p.op == Op::Hello,
        old_s.session_id matches Some(sid),
        old_s.sequence_number matches Some(n),
    ensures
        r matches IdentifyAction::Send(pl) && pl.op == Op::Resume,
        r matches IdentifyAction::Send(pl) && (pl.d matches Some(d) && is_resume_d(
            d,
            old_s.token@,
            old_s.session_id->0@,
            old_s.sequence_number->0,
        )),
        !(r matches IdentifyAction::Send(pl) && pl.op == Op::Identify),
{
}

/// InvalidSession recovery: the session id is cleared, and a fresh
/// Identify follows after the fixed pause.
pub proof fn lemma_invalid_session_recovery(
    old_s: Identify,
    p: Payload,
    new_s: Identify,
    r: IdentifyAction,
)
    requires
        identify_step(old_s, p, new_s, r),
        p.op == Op::InvalidSession,
    ensures
        new_s.session_id is None,
        r matches IdentifyAction::SendAfterPause { delay_ms, payload } && delay_ms == 2000
            && is_identify_payload(payload, new_s),
{
}

} // verus!
