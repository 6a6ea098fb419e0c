//! Request handling: authentication, shape validation and dispatch.
//!
//! For one inbound call the handler tests, in this order: the body is valid
//! UTF-8; the detached signature over `timestamp || body` verifies and is
//! fresh; the body parses as JSON and is an object; the object declares an
//! integer `type`. A ping is answered directly, an application command is
//! acknowledged with a deferred response and handed out for out-of-band
//! publication, and everything else is rejected. Every authentication
//! failure collapses into one generic outcome so that no sub-check is
//! leaked to the caller.

use vstd::prelude::*;
use vstd::slice::slice_to_vec;
use crate::json::{JsonValue, JsonSpec, spec_interaction_type, interaction_type, TYPE_KEY};
use crate::json_parse::{spec_parse_json, parse_json};
use crate::json_text::{spec_json_text, to_json_text};
use crate::signature::{spec_validate, validate_signature};

verus! {

/// Whether a byte string is valid UTF-8; a function of the bytes alone.
pub uninterp spec fn utf8_ok(b: Seq<u8>) -> bool;

/// Relies on `core::str::from_utf8`: whether it accepts a byte string
/// depends on the bytes alone.
#[verifier::external_body]
fn check_utf8(b: &Vec<u8>) -> (r: bool)
    ensures
        r == utf8_ok(b@),
{
    core::str::from_utf8(b.as_slice()).is_ok()
}

/// What the handler decides for one request.
pub enum Outcome {
    /// The body is not valid UTF-8.
    BadEncoding,
    /// The signature is missing, malformed, stale or wrong.
    BadSignature,
    /// The body is not a JSON object.
    BadJson,
    /// The object declares no integer `type`, or one the handler does
    /// not serve.
    UnsupportedType,
    /// A ping, answered in place.
    Pong,
    /// An application command: acknowledged with a deferred response; the
    /// parsed interaction is carried out for background publication.
    Deferred(JsonValue),
}

pub enum OutcomeSpec {
    BadEncoding,
    BadSignature,
    BadJson,
    UnsupportedType,
    Pong,
    Deferred(JsonSpec),
}

impl View for Outcome {
    type V = OutcomeSpec;

    open spec fn view(&self) -> OutcomeSpec {
        match self {
            Outcome::BadEncoding => OutcomeSpec::BadEncoding,
            Outcome::BadSignature => OutcomeSpec::BadSignature,
            Outcome::BadJson => OutcomeSpec::BadJson,
            Outcome::UnsupportedType => OutcomeSpec::UnsupportedType,
            Outcome::Pong => OutcomeSpec::Pong,
            Outcome::Deferred(v) => OutcomeSpec::Deferred(crate::json::jspec(*v)),
        }
    }
}

pub const PING_TYPE: i64 = 1;

pub const APPLICATION_COMMAND_TYPE: i64 = 2;

pub const PONG_RESPONSE_TYPE: i64 = 1;

pub const DEFERRED_RESPONSE_TYPE: i64 = 5;

/// What the handler decides for a request, stage by stage: UTF-8 first, then
/// the signature, then JSON shape, then the declared type.
pub open spec fn spec_handle(
    key: Seq<u8>,
    sig_hex: Seq<u8>,
    ts: Seq<u8>,
    body: Seq<u8>,
    now: i64,
) -> OutcomeSpec {
    if !utf8_ok(body) {
        OutcomeSpec::BadEncoding
    } else if !spec_validate(key, sig_hex, ts, body, now) {
        OutcomeSpec::BadSignature
    } else {
        match spec_parse_json(body) {
            None => OutcomeSpec::BadJson,
            Some(v) => if !(v is Obj) {
                OutcomeSpec::BadJson
            } else {
                match spec_interaction_type(v) {
                    None => OutcomeSpec::UnsupportedType,
                    Some(t) => if t == PING_TYPE as int {
                        OutcomeSpec::Pong
                    } else if t == APPLICATION_COMMAND_TYPE as int {
                        OutcomeSpec::Deferred(v)
                    } else {
                        OutcomeSpec::UnsupportedType
                    },
                }
            },
        }
    }
}

/// Handles one request, exactly as `spec_handle` states. Verification
/// strictly precedes parsing, which strictly precedes dispatch.
pub fn handle_interaction(
    key: &Vec<u8>,
    sig_hex: &Vec<u8>,
    ts: &Vec<u8>,
    body: &Vec<u8>,
    now: i64,
) -> (r: Outcome)
    requires
        key@.len() == 32,
    ensures
        r@ == spec_handle(key@, sig_hex@, ts@, body@, now),
{
    if !check_utf8(body) {
        return Outcome::BadEncoding;
    }
    if !validate_signature(key, sig_hex, ts, body, now) {
        return Outcome::BadSignature;
    }
    let v = match parse_json(body) {
        Some(v) => v,
        None => {
            return Outcome::BadJson;
        },
    };
    match &v {
        JsonValue::Obj(_) => {},
        _ => {
            return Outcome::BadJson;
        },
    }
    match interaction_type(&v) {
        None => Outcome::UnsupportedType,
        Some(t) => {
            if t == PING_TYPE {
                Outcome::Pong
            } else if t == APPLICATION_COMMAND_TYPE {
                Outcome::Deferred(v)
            } else {
                Outcome::UnsupportedType
            }
        },
    }
}

/// The HTTP status for an outcome.
pub open spec fn spec_status(o: OutcomeSpec) -> int {
    match o {
        OutcomeSpec::BadEncoding => 400,
        OutcomeSpec::BadSignature => 401,
        OutcomeSpec::BadJson => 400,
        OutcomeSpec::UnsupportedType => 400,
        OutcomeSpec::Pong => 200,
        OutcomeSpec::Deferred(_) => 200,
    }
}

pub fn response_status(o: &Outcome) -> (r: u16)
    ensures
        r as int == spec_status(o@),
{
    match o {
        Outcome::BadEncoding => 400,
        Outcome::BadSignature => 401,
        Outcome::BadJson => 400,
        Outcome::UnsupportedType => 400,
        Outcome::Pong => 200,
        Outcome::Deferred(_) => 200,
    }
}

pub const ERROR_KEY: [u8; 5] = [101, 114, 114, 111, 114];

pub const MSG_BAD_ENCODING: [u8; 21] = [
    105,
    110,
    118,
    97,
    108,
    105,
    100,
    32,
    98,
    111,
    100,
    121,
    32,
    101,
    110,
    99,
    111,
    100,
    105,
    110,
    103,
];

pub const MSG_BAD_SIGNATURE: [u8; 17] = [
    105,
    110,
    118,
    97,
    108,
    105,
    100,
    32,
    115,
    105,
    103,
    110,
    97,
    116,
    117,
    114,
    101,
];

pub const MSG_BAD_JSON: [u8; 12] = [105, 110, 118, 97, 108, 105, 100, 32, 74, 83, 79, 78];

pub const MSG_UNSUPPORTED: [u8; 28] = [
    117,
    110,
    115,
    117,
    112,
    112,
    111,
    114,
    116,
    101,
    100,
    32,
    105,
    110,
    116,
    101,
    114,
    97,
    99,
    116,
    105,
    111,
    110,
    32,
    116,
    121,
    112,
    101,
];

pub const STATUS_KEY: [u8; 6] = [115, 116, 97, 116, 117, 115];

pub const STATUS_OK: [u8; 2] = [111, 107];

/// The document a response body serializes.
pub open spec fn spec_response_doc(o: OutcomeSpec) -> JsonSpec {
    match o {
        OutcomeSpec::BadEncoding => JsonSpec::Obj(
            seq![(ERROR_KEY@, JsonSpec::Str(MSG_BAD_ENCODING@))],
        ),
        OutcomeSpec::BadSignature => JsonSpec::Obj(
            seq![(ERROR_KEY@, JsonSpec::Str(MSG_BAD_SIGNATURE@))],
        ),
        OutcomeSpec::BadJson => JsonSpec::Obj(seq![(ERROR_KEY@, JsonSpec::Str(MSG_BAD_JSON@))]),
        OutcomeSpec::UnsupportedType => JsonSpec::Obj(
            seq![(ERROR_KEY@, JsonSpec::Str(MSG_UNSUPPORTED@))],
        ),
        OutcomeSpec::Pong => JsonSpec::Obj(
            seq![(TYPE_KEY@, JsonSpec::Int(PONG_RESPONSE_TYPE as int))],
        ),
        OutcomeSpec::Deferred(_) => JsonSpec::Obj(
            seq![(TYPE_KEY@, JsonSpec::Int(DEFERRED_RESPONSE_TYPE as int))],
        ),
    }
}

/// The JSON body answered for an outcome.
pub open spec fn spec_response_body(o: OutcomeSpec) -> Seq<u8> {
    spec_json_text(spec_response_doc(o))
}

fn one_field_doc(key: &[u8], value: JsonValue) -> (r: JsonValue)
    ensures
        r@ == JsonSpec::Obj(seq![(key@, value@)]),
{
    let mut fields: Vec<(Vec<u8>, JsonValue)> = Vec::new();
    fields.push((slice_to_vec(key), value));
    proof {
        crate::json::lemma_jspec_fields(fields@);
        assert(crate::json::jspec_fields(fields@) =~= seq![(key@, value@)]);
    }
    JsonValue::Obj(fields)
}

/// Builds the response body for an outcome, exactly as
/// `spec_response_body` states.
pub fn response_body(o: &Outcome) -> (r: Vec<u8>)
    ensures
        r@ == spec_response_body(o@),
{
    let doc = match o {
        Outcome::BadEncoding => one_field_doc(
            ERROR_KEY.as_slice(),
            JsonValue::Str(slice_to_vec(MSG_BAD_ENCODING.as_slice())),
        ),
        Outcome::BadSignature => one_field_doc(
            ERROR_KEY.as_slice(),
            JsonValue::Str(slice_to_vec(MSG_BAD_SIGNATURE.as_slice())),
        ),
        Outcome::BadJson => one_field_doc(
            ERROR_KEY.as_slice(),
            JsonValue::Str(slice_to_vec(MSG_BAD_JSON.as_slice())),
        ),
        Outcome::UnsupportedType => one_field_doc(
            ERROR_KEY.as_slice(),
            JsonValue::Str(slice_to_vec(MSG_UNSUPPORTED.as_slice())),
        ),
        Outcome::Pong => one_field_doc(TYPE_KEY.as_slice(), JsonValue::Int(PONG_RESPONSE_TYPE)),
        Outcome::Deferred(_) => one_field_doc(
            TYPE_KEY.as_slice(),
            JsonValue::Int(DEFERRED_RESPONSE_TYPE),
        ),
    };
    to_json_text(&doc)
}

/// The body of the health answer.
pub open spec fn spec_health_body() -> Seq<u8> {
    spec_json_text(JsonSpec::Obj(seq![(STATUS_KEY@, JsonSpec::Str(STATUS_OK@))]))
}

/// Builds the health answer, exactly as `spec_health_body` states.
pub fn health_body() -> (r: Vec<u8>)
    ensures
        r@ == spec_health_body(),
{
    let doc = one_field_doc(
        STATUS_KEY.as_slice(),
        JsonValue::Str(slice_to_vec(STATUS_OK.as_slice())),
    );
    to_json_text(&doc)
}

} // verus!
