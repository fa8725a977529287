//! The heartbeat actor: it observes gateway payloads to learn the
//! heartbeat interval, the last sequence number and the liveness flag, and
//! it decides, each time the timer fires, whether to send a heartbeat or
//! to force a reconnect. The timer thread itself lives with the runtime;
//! it is started exactly once, when the first usable Hello arrives.

use vstd::prelude::*;
use crate::json::{Json, spec_get, spec_as_u64};
use crate::payload::{Op, Payload};

verus! {

/// The pause before re-checking when no interval is known yet, in
/// milliseconds.
pub const NO_INTERVAL_PAUSE_MS: u64 = 5000;

/// The heartbeat actor's state.
#[derive(Debug, PartialEq)]
pub struct Heartbeat {
    /// The interval from the last usable Hello, in milliseconds.
    pub interval: Option<u64>,
    /// The last observed sequence number.
    pub sequence_number: Option<u64>,
    /// True after an acknowledgement (or READY), false between a
    /// heartbeat send and the next acknowledgement.
    pub ack_received: bool,
    /// Whether the timer thread has been started; it starts exactly once.
    pub timer_started: bool,
}

/// What the actor asks the runtime to do when the timer fires.
#[derive(Debug, PartialEq)]
pub enum TimerAction {
    /// No interval is known yet: check again after the short pause.
    WaitForHello,
    /// Send this heartbeat frame.
    Beat(Payload),
    /// The last heartbeat went unacknowledged: force a reconnect.
    Reconnect,
}

/// The interval a Hello payload carries, if it is usable: the payload must
/// hold data with a non-negative integer `heartbeat_interval`.
pub open spec fn spec_hello_interval(p: Payload) -> Option<u64> {
    if p.op == Op::Hello && p.d is Some {
        match spec_get(p.d->0, "heartbeat_interval"@) {
            Some(v) => spec_as_u64(v),
            None => None,
        }
    } else {
        None
    }
}

/// How one observed payload changes the heartbeat state, and whether it
/// starts the timer: a usable Hello stores the interval and starts the
/// timer if it was not yet started; HeartbeatAck and READY set the
/// liveness flag; any payload carrying a sequence number stores it, a
/// READY dispatch included.
pub open spec fn spec_observe(hb: Heartbeat, p: Payload) -> (Heartbeat, bool) {
    if p.op == Op::Hello && p.d is Some {
        match spec_hello_interval(p) {
            Some(ms) => (
                Heartbeat { interval: Some(ms), timer_started: true, ..hb },
                !hb.timer_started,
            ),
            None => (hb, false),
        }
    } else if p.op == Op::HeartbeatAck {
        (Heartbeat { ack_received: true, ..hb }, false)
    } else if p.op == Op::Dispatch && (p.t matches Some(t) && t@ == "READY"@) {
        (
            Heartbeat {
                ack_received: true,
                sequence_number: if p.s is Some {
                    p.s
                } else {
                    hb.sequence_number
                },
                ..hb
            },
            false,
        )
    } else if p.s is Some {
        (Heartbeat { sequence_number: p.s, ..hb }, false)
    } else {
        (hb, false)
    }
}

/// The frame sent for one heartbeat: opcode Heartbeat, data the sequence
/// number, or null when none was observed yet.
pub open spec fn spec_beat_payload(seq: Option<u64>) -> Payload {
    Payload {
        op: Op::Heartbeat,
        d: Some(
            match seq {
                Some(n) => Json::U64(n),
                None => Json::Null,
            },
        ),
        t: None,
        s: None,
    }
}

impl Heartbeat {
    /// A fresh actor: nothing observed, not yet alive, timer not started.
    pub fn new() -> (r: Heartbeat)
        ensures
            r == (Heartbeat {
                interval: None,
                sequence_number: None,
                ack_received: false,
                timer_started: false,
            }),
    {
        Heartbeat { interval: None, sequence_number: None, ack_received: false, timer_started: false }
    }

    /// The interval from the last usable Hello.
    pub fn interval(&self) -> (r: Option<u64>)
        ensures
            r == self.interval,
    {
        self.interval
    }

    /// Stores the interval.
    pub fn set_interval(&mut self, interval: u64)
        ensures
            *final(self) == (Heartbeat { interval: Some(interval), ..*old(self) }),
    {
        self.interval = Some(interval);
    }

    /// The last observed sequence number.
    pub fn sequence_number(&self) -> (r: Option<u64>)
        ensures
            r == self.sequence_number,
    {
        self.sequence_number
    }

    /// Stores the sequence number.
    pub fn set_sequence_number(&mut self, sequence_number: u64)
        ensures
            *final(self) == (Heartbeat { sequence_number: Some(sequence_number), ..*old(self) }),
    {
        self.sequence_number = Some(sequence_number);
    }

    /// The liveness flag.
    pub fn ack_received(&self) -> (r: bool)
        ensures
            r == self.ack_received,
    {
        self.ack_received
    }

    /// Sets the liveness flag.
    pub fn set_ack_received(&mut self, ack_received: bool)
        ensures
            *final(self) == (Heartbeat { ack_received, ..*old(self) }),
    {
        self.ack_received = ack_received;
    }

    /// Observes one payload; the result says whether the runtime must now
    /// start the timer thread, which happens at most once.
    pub fn on_gateway_payload(&mut self, p: &Payload) -> (start_timer: bool)
        ensures
            (*final(self), start_timer) == spec_observe(*old(self), *p),
    {
        match (&p.op, &p.d) {
            (Op::Hello, Some(d)) => {
                let iv: Option<u64> = match d.get("heartbeat_interval") {
                    Some(v) => v.as_u64(),
                    None => None,
                };
                match iv {
                    Some(ms) => {
                        self.interval = Some(ms);
                        let start = !self.timer_started;
                        self.timer_started = true;
                        start
                    }
                    None => false,
                }
            }
            (Op::HeartbeatAck, _) => {
                self.ack_received = true;
                false
            }
            _ => {
                let ready: bool = match (&p.op, &p.t) {
                    (Op::Dispatch, Some(t)) => crate::text::str_eq(t.as_str(), "READY"),
                    _ => false,
                };
                if ready {
                    self.ack_received = true;
                }
                match p.s {
                    Some(n) => {
                        self.sequence_number = Some(n);
                        false
                    }
                    None => false,
                }
            }
        }
    }

    /// How long the timer thread waits before its next decision, in
    /// milliseconds: the interval, or a short pause while none is known.
    pub fn timer_wait_ms(&self) -> (r: u64)
        ensures
            self.interval matches Some(ms) ==> r == ms,
            self.interval is None ==> r == NO_INTERVAL_PAUSE_MS,
    {
        match self.interval {
            Some(ms) => ms,
            None => NO_INTERVAL_PAUSE_MS,
        }
    }

    /// Decides what happens when the timer fires: with no interval known
    /// the timer just waits again; if the last heartbeat was acknowledged
    /// the next one is sent (and the flag cleared until the ack arrives);
    /// otherwise the connection is considered dead and a reconnect is
    /// forced.
    pub fn on_timer(&mut self) -> (r: TimerAction)
        ensures
            old(self).interval is None ==> *final(self) == *old(self) && r
                == TimerAction::WaitForHello,
            old(self).interval is Some && old(self).ack_received ==> *final(self) == (Heartbeat {
                ack_received: false,
                ..*old(self)
            }) && r == TimerAction::Beat(spec_beat_payload(old(self).sequence_number)),
            old(self).interval is Some && !old(self).ack_received ==> *final(self) == *old(self)
                && r == TimerAction::Reconnect,
    {
        if self.interval.is_none() {
            return TimerAction::WaitForHello;
        }
        if self.ack_received {
            self.ack_received = false;
            let d: Json = match self.sequence_number {
                Some(n) => Json::U64(n),
                None => Json::Null,
            };
            TimerAction::Beat(Payload::op(Op::Heartbeat).d(d))
        } else {
            TimerAction::Reconnect
        }
    }
}

/// The timer is started exactly once: an observation asks for the start
/// only when the timer was not running, and once it runs it never stops.
pub proof fn lemma_timer_starts_once(hb: Heartbeat, p: Payload)
    ensures
        spec_observe(hb, p).1 ==> !hb.timer_started && spec_observe(hb, p).0.timer_started,
        hb.timer_started ==> spec_observe(hb, p).0.timer_started && !spec_observe(hb, p).1,
{
}

} // verus!
