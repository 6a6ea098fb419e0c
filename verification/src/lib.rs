//! A verified gateway for signed webhook interactions.
//!
//! The library authenticates inbound interaction callbacks (a detached
//! Ed25519 signature over `timestamp || body` with a bounded freshness
//! window), validates the request shape, routes by interaction type, and
//! builds sanitized publish envelopes for a messaging backend.

pub mod bytesutil;
pub mod envelope;
pub mod dispatch;
pub mod json;
pub mod json_parse;
pub mod json_text;
pub mod hexcode;
pub mod numeric;
pub mod sanitize;
pub mod signature;

use vstd::prelude::*;

verus! {

/// Number of seconds a timestamp may lag behind the current time before
/// the request is considered stale.
pub const FRESHNESS_WINDOW_SECS: i64 = 5;

} // verus!
