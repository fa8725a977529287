//! A minimalist client library for the Discord bot gateway.
//!
//! The crate is organised around a verified core: the payload codec, the
//! intent bitmasks, the error taxonomy and retry policy, the REST request
//! planning and response interpretation, and the session state machines
//! (heartbeat and identify) are all verified functions on plain values.
//! The thin runtime that performs network I/O, spawns threads and sleeps
//! lives outside the library and drives these functions.

pub use crate::error::Error;
pub use crate::intents::Intent;
pub use crate::json::Json;
pub use crate::payload::{Op, Payload};
pub use crate::retry::RetryableError;
pub use crate::smalld::{SmallD, SmallDBuilder};

pub mod error;
pub mod gateway;
pub mod heartbeat;
pub mod http;
pub mod identify;
pub mod intents;
pub mod json;
pub mod listeners;
pub mod payload;
pub mod retry;
pub mod smalld;
pub mod text;
pub mod urls;
