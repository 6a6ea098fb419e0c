//! Signature verification with a bounded freshness window.
//!
//! A request carries a hex-encoded detached Ed25519 signature and a decimal
//! timestamp header. The signed message is the exact concatenation of the
//! timestamp text and the raw body bytes. Verification fails closed: an
//! unparsable timestamp, a stale timestamp, malformed hex, a wrong-length
//! signature or a failed curve check all yield `false`, and the caller
//! collapses every cause into one generic authentication error.

use vstd::prelude::*;
use crate::numeric::{spec_parse_i64, parse_i64};
use crate::hexcode::{spec_hex_decode, hex_decode};
use crate::bytesutil::append_bytes;
use crate::FRESHNESS_WINDOW_SECS;
use ed25519_dalek::Verifier;

verus! {

/// Whether `sig` is a valid Ed25519 signature by the key encoded by
/// `key` over `msg`. The verdict is a mathematical function of the three
/// byte strings alone; bytes that decode to no valid public key admit no
/// valid signature.
pub uninterp spec fn ed25519_valid(key: Seq<u8>, sig: Seq<u8>, msg: Seq<u8>) -> bool;

/// Relies on `ed25519_dalek::VerifyingKey::from_bytes`,
/// `ed25519_dalek::Signature::from_bytes` and
/// `ed25519_dalek::Verifier::verify`: the verdict depends only on the key
/// bytes, the signature bytes and the message.
#[verifier::external_body]
fn ed25519_verify(key: &Vec<u8>, sig: &Vec<u8>, msg: &Vec<u8>) -> (r: bool)
    requires
        key@.len() == 32,
        sig@.len() == 64,
    ensures
        r == ed25519_valid(key@, sig@, msg@),
{
    let key_arr: [u8; 32] = match key.as_slice().try_into() {
        Ok(a) => a,
        Err(_) => return false,
    };
    let sig_arr: [u8; 64] = match sig.as_slice().try_into() {
        Ok(a) => a,
        Err(_) => return false,
    };
    let vk = match ed25519_dalek::VerifyingKey::from_bytes(&key_arr) {
        Ok(k) => k,
        Err(_) => return false,
    };
    let signature = ed25519_dalek::Signature::from_bytes(&sig_arr);
    vk.verify(msg.as_slice(), &signature).is_ok()
}

/// What signature validation returns: the timestamp text parses as an
/// integer, the timestamp is at most `FRESHNESS_WINDOW_SECS` seconds in
/// the past, the signature text decodes to exactly 64 bytes of hex, and
/// the signature checks out over `timestamp || body`. The freshness test
/// is one-sided: a timestamp in the future is not rejected.
pub open spec fn spec_validate(
    key: Seq<u8>,
    sig_hex: Seq<u8>,
    ts: Seq<u8>,
    body: Seq<u8>,
    now: i64,
) -> bool {
    match spec_parse_i64(ts) {
        Some(t) => now - t <= FRESHNESS_WINDOW_SECS && (match spec_hex_decode(sig_hex) {
            Some(sig) => sig.len() == 64 && ed25519_valid(key, sig, ts + body),
            None => false,
        }),
        None => false,
    }
}

/// Validates the detached signature of one request against the configured
/// public key at time `now`, exactly as `spec_validate` states.
pub fn validate_signature(
    key: &Vec<u8>,
    sig_hex: &Vec<u8>,
    ts: &Vec<u8>,
    body: &Vec<u8>,
    now: i64,
) -> (r: bool)
    requires
        key@.len() == 32,
    ensures
        r == spec_validate(key@, sig_hex@, ts@, body@, now),
{
    let t = match parse_i64(ts) {
        Some(t) => t,
        None => {
            return false;
        },
    };
    if (now as i128) - (t as i128) > FRESHNESS_WINDOW_SECS as i128 {
        return false;
    }
    let sig = match hex_decode(sig_hex) {
        Some(b) => b,
        None => {
            return false;
        },
    };
    if sig.len() != 64 {
        return false;
    }
    let mut msg: Vec<u8> = Vec::new();
    append_bytes(&mut msg, ts.as_slice());
    append_bytes(&mut msg, body.as_slice());
    ed25519_verify(key, &sig, &msg)
}

/// A correctly signed request with a parsable, non-future timestamp is
/// accepted exactly when the timestamp lags the current time by at most
/// the freshness window; in particular a timestamp six seconds old is
/// rejected.
pub proof fn lemma_validate_freshness(
    key: Seq<u8>,
    sig_hex: Seq<u8>,
    ts: Seq<u8>,
    body: Seq<u8>,
    now: i64,
    t: i64,
)
    requires
        spec_parse_i64(ts) == Some(t),
        spec_hex_decode(sig_hex) matches Some(sig) && sig.len() == 64
            && ed25519_valid(key, sig, ts + body),
        t <= now,
    ensures
        spec_validate(key, sig_hex, ts, body, now) == (now - t <= FRESHNESS_WINDOW_SECS),
        now - t == FRESHNESS_WINDOW_SECS + 1 ==> !spec_validate(key, sig_hex, ts, body, now),
{
}

/// The freshness test is one-sided by design: a correctly signed request
/// whose timestamp lies in the future, however far, is accepted.
pub proof fn lemma_validate_accepts_future(
    key: Seq<u8>,
    sig_hex: Seq<u8>,
    ts: Seq<u8>,
    body: Seq<u8>,
    now: i64,
    t: i64,
)
    requires
        spec_parse_i64(ts) == Some(t),
        spec_hex_decode(sig_hex) matches Some(sig) && sig.len() == 64
            && ed25519_valid(key, sig, ts + body),
        t > now,
    ensures
        spec_validate(key, sig_hex, ts, body, now),
{
}

/// Validation rejects a signature that is not well-formed hex of the
/// right length, a timestamp that does not parse, and a signature that
/// does not check out over this exact message.
pub proof fn lemma_validate_rejects(
    key: Seq<u8>,
    sig_hex: Seq<u8>,
    ts: Seq<u8>,
    body: Seq<u8>,
    now: i64,
)
    ensures
        spec_parse_i64(ts) is None ==> !spec_validate(key, sig_hex, ts, body, now),
        spec_hex_decode(sig_hex) is None ==> !spec_validate(key, sig_hex, ts, body, now),
        (spec_hex_decode(sig_hex) matches Some(sig) && sig.len() != 64)
            ==> !spec_validate(key, sig_hex, ts, body, now),
        (spec_hex_decode(sig_hex) matches Some(sig) && !ed25519_valid(key, sig, ts + body))
            ==> !spec_validate(key, sig_hex, ts, body, now),
{
}

} // verus!
