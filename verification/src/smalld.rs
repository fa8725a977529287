//! The session engine's verified core: construction, the fan-out of one
//! inbound payload to the built-in actors and the registered listeners,
//! the run loop's per-message decision, and the extraction of the gateway
//! URL from the `/gateway/bot` response. The runtime owns the sockets and
//! the threads and drives these functions.

use vstd::prelude::*;
use crate::error::Error;
use crate::heartbeat::{Heartbeat, spec_observe};
use crate::http::{Http, Resource};
use crate::identify::{Identify, IdentifyAction, identify_step};
use crate::intents::Intent;
use crate::json::{Json, spec_get};
use crate::listeners::{Listeners, Subscription, spec_plan};
use crate::payload::Payload;
use crate::urls::{ParsedUrl, parse_url, url_parse_of};

verus! {

/// The default REST base.
pub open spec fn spec_default_base_url() -> Seq<char> {
    "https://discord.com/api/v8"@
}

/// The pause of the run loop when no frame is available, in milliseconds.
pub const POLL_PAUSE_MS: u64 = 100;

/// The engine's state: the REST client, the two built-in actors and the
/// listener registry. The runtime shares it behind its own lock.
#[derive(Debug)]
pub struct SmallD {
    pub http: Http,
    pub heartbeat: Heartbeat,
    pub identify: Identify,
    pub listeners: Listeners,
}

/// Everything the runtime must do after one inbound payload, in order:
/// start the heartbeat timer if asked (this is asked at most once), carry
/// out the identify actor's action, then invoke the listed listeners.
#[derive(Debug)]
pub struct Delivery {
    pub start_heartbeat_timer: bool,
    pub identify_action: IdentifyAction,
    pub notify: Vec<usize>,
}

/// What the run loop does with one read message.
#[derive(Debug, PartialEq)]
pub enum LoopStep {
    /// Fan the payload out to the actors and listeners.
    Deliver(Payload),
    /// The attempt ends with this error; the retry policy decides next.
    EndAttempt(Error),
    /// Nothing was available: pause briefly, then read again.
    Pause(u64),
}

impl SmallD {
    /// A resource under the REST base, ready for query parameters and a
    /// verb.
    pub fn resource<'a>(&'a self, path: &str) -> (r: Resource<'a>)
        ensures
            r.http == &self.http,
            r.path@ == path@,
            r.parameters@ == Seq::<(String, String)>::empty(),
    {
        Resource::new(&self.http, path)
    }

    /// Subscribes to every gateway payload; the runtime keeps the matching
    /// callback under the returned index.
    pub fn on_gateway_payload(&mut self) -> (r: usize)
        ensures
            final(self).listeners.subs@ == old(self).listeners.subs@.push(
                Subscription::AllPayloads,
            ),
            r == old(self).listeners.subs@.len(),
            final(self).http == old(self).http && final(self).heartbeat == old(self).heartbeat
                && final(self).identify == old(self).identify,
    {
        let r: usize = self.listeners.len();
        self.listeners.add(Subscription::AllPayloads);
        r
    }

    /// Subscribes to one named Dispatch event; such a listener receives
    /// the payload's data field.
    pub fn on_event(&mut self, name: &str) -> (r: usize)
        ensures
            final(self).listeners.subs@.len() == old(self).listeners.subs@.len() + 1,
            final(self).listeners.subs@.take(old(self).listeners.subs@.len() as int) == old(
                self,
            ).listeners.subs@,
            final(self).listeners.subs@.last() matches Subscription::Event(n) && n@ == name@,
            r == old(self).listeners.subs@.len(),
            final(self).http == old(self).http && final(self).heartbeat == old(self).heartbeat
                && final(self).identify == old(self).identify,
    {
        let r: usize = self.listeners.len();
        self.listeners.add(Subscription::Event(name.to_owned()));
        proof {
            assert(final(self).listeners.subs@.take(old(self).listeners.subs@.len() as int)
                =~= old(self).listeners.subs@);
        }
        r
    }

    /// Fans one inbound payload out: the heartbeat actor observes it, then
    /// the identify actor, then the listener plan is drawn up, mirroring
    /// the order in which the actors and listeners were registered.
    pub fn deliver(&mut self, p: &Payload) -> (r: Delivery)
        ensures
            (final(self).heartbeat, r.start_heartbeat_timer) == spec_observe(
                old(self).heartbeat,
                *p,
            ),
            identify_step(old(self).identify, *p, final(self).identify, r.identify_action),
            r.notify@ == spec_plan(
                old(self).listeners.subs@,
                *p,
                old(self).listeners.subs@.len() as int,
            ),
            final(self).http == old(self).http && final(self).listeners == old(self).listeners,
    {
        let start_heartbeat_timer = self.heartbeat.on_gateway_payload(p);
        let identify_action = self.identify.on_gateway_payload(p);
        let notify = self.listeners.notify_plan(p);
        Delivery { start_heartbeat_timer, identify_action, notify }
    }

    /// Decides the run loop's next step from one read message: a payload
    /// is delivered, a close ends the attempt with `WebSocketClosed`, and
    /// an empty read asks for the polling pause.
    pub fn handle_message(m: crate::gateway::Message) -> (r: LoopStep)
        ensures
            m matches crate::gateway::Message::Payload(p) ==> r == LoopStep::Deliver(p),
            m matches crate::gateway::Message::Close { code, reason } ==> r == LoopStep::EndAttempt(
                Error::WebSocketClosed { code, reason },
            ),
            m is Empty ==> r == LoopStep::Pause(POLL_PAUSE_MS),
    {
        match m {
            crate::gateway::Message::Payload(p) => LoopStep::Deliver(p),
            crate::gateway::Message::Close { code, reason } => LoopStep::EndAttempt(
                Error::WebSocketClosed { code, reason },
            ),
            crate::gateway::Message::Empty => LoopStep::Pause(POLL_PAUSE_MS),
        }
    }

    /// Reads the WebSocket URL out of the `/gateway/bot` response: the
    /// string field `url`, which must parse as a URL; the normalized text
    /// is returned. A missing or non-string field is a protocol error,
    /// an unparsable URL a bad argument.
    pub fn websocket_url_from(v: &Json) -> (r: Result<String, Error>)
        ensures
            !(spec_get(*v, "url"@) matches Some(Json::Str(_))) ==> (r matches Err(
                Error::IllegalStateError(m),
            ) && m@ == "Could not get websocket url"@),
            spec_get(*v, "url"@) matches Some(Json::Str(u)) ==> match url_parse_of(u@) {
                Some(pr) => r matches Ok(text) && text@ == pr.0,
                None => r matches Err(Error::IllegalArgumentError(m)) && m@
                    == "Bad websocket url: "@ + u@,
            },
    {
        let u: &String = match v.get("url") {
            Some(j) => {
                match j.as_str() {
                    Some(s) => s,
                    None => {
                        return Err(
                            Error::IllegalStateError(
                                String::from_str("Could not get websocket url"),
                            ),
                        );
                    }
                }
            }
            None => {
                return Err(
                    Error::IllegalStateError(String::from_str("Could not get websocket url")),
                );
            }
        };
        match parse_url(u.as_str()) {
            Some(parsed) => Ok(parsed.text),
            None => Err(
                Error::IllegalArgumentError(String::from_str("Bad websocket url: ").concat(u.as_str())),
            ),
        }
    }
}

/// Configures and creates a `SmallD`.
#[derive(Debug, PartialEq)]
pub struct SmallDBuilder {
    pub token: Option<String>,
    pub base_url: String,
    pub intents: u16,
}

impl SmallDBuilder {
    /// The defaults: no token yet, the default REST base, the
    /// unprivileged intents.
    pub fn new() -> (r: SmallDBuilder)
        ensures
            r.token is None,
            r.base_url@ == spec_default_base_url(),
            r.intents == Intent::UNPRIVILEGED,
    {
        SmallDBuilder {
            token: None,
            base_url: String::from_str("https://discord.com/api/v8"),
            intents: Intent::UNPRIVILEGED,
        }
    }

    /// Sets the bot token.
    pub fn token(self, s: &str) -> (r: SmallDBuilder)
        ensures
            r.token matches Some(t) && t@ == s@,
            r.base_url == self.base_url,
            r.intents == self.intents,
    {
        SmallDBuilder { token: Some(s.to_owned()), ..self }
    }

    /// Sets the REST base URL.
    pub fn base_url(self, s: &str) -> (r: SmallDBuilder)
        ensures
            r.base_url@ == s@,
            r.token == self.token,
            r.intents == self.intents,
    {
        SmallDBuilder { base_url: s.to_owned(), ..self }
    }

    /// Sets the intents bitmask.
    pub fn intents(self, intents: u16) -> (r: SmallDBuilder)
        ensures
            r == (SmallDBuilder { intents, ..self }),
    {
        SmallDBuilder { intents, ..self }
    }

    /// Builds the engine: the token must be set, and the base URL must
    /// parse as a non-opaque URL; otherwise construction fails with a
    /// configuration error. The heartbeat and identify actors start
    /// fresh, and no listeners are registered yet.
    pub fn build(&self) -> (r: Result<SmallD, Error>)
        ensures
            self.token is None ==> (r matches Err(Error::ConfigurationError(m)) && m@
                == "No Discord token provided"@),
            self.token matches Some(tk) ==> match url_parse_of(self.base_url@) {
                Some(pr) => if pr.1 {
                    r matches Err(Error::ConfigurationError(_))
                } else {
                    r matches Ok(sd) && {
                        &&& sd.http.authorization@ == crate::http::spec_auth_header(tk@)
                        &&& sd.http.user_agent@ == crate::http::spec_user_agent()
                        &&& sd.http.base.text@ == pr.0 && sd.http.base.opaque == false
                        &&& sd.heartbeat == (Heartbeat {
                            interval: None,
                            sequence_number: None,
                            ack_received: false,
                            timer_started: false,
                        })
                        &&& sd.identify.token@ == tk@ && sd.identify.intents_bitmask == self.intents
                        &&& sd.identify.session_id is None && sd.identify.sequence_number is None
                        &&& sd.listeners.subs@.len() == 0
                    }
                },
                None => r matches Err(Error::ConfigurationError(_)),
            },
    {
        let token: &String = match &self.token {
            Some(t) => t,
            None => {
                return Err(
                    Error::ConfigurationError(String::from_str("No Discord token provided")),
                );
            }
        };
        let base: ParsedUrl = match parse_url(self.base_url.as_str()) {
            Some(u) => {
                if u.opaque {
                    return Err(
                        Error::ConfigurationError(
                            String::from_str("Bad base_url: ").concat(self.base_url.as_str()),
                        ),
                    );
                }
                u
            }
            None => {
                return Err(
                    Error::ConfigurationError(
                        String::from_str("Bad base_url: ").concat(self.base_url.as_str()),
                    ),
                );
            }
        };
        Ok(
            SmallD {
                http: Http::new(token.as_str(), base),
                heartbeat: Heartbeat::new(),
                identify: Identify::new(token.as_str(), self.intents),
                listeners: Listeners::new(),
            },
        )
    }
}

impl Default for SmallDBuilder {
    /// The same defaults as `new`.
    fn default() -> (r: SmallDBuilder)
        ensures
            r.token is None,
            r.base_url@ == spec_default_base_url(),
            r.intents == Intent::UNPRIVILEGED,
    {
        SmallDBuilder::new()
    }
}

} // verus!
