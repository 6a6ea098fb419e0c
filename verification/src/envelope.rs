//! The publish gateway: building attributed envelopes for the messaging
//! backend.
//!
//! A command interaction is sanitized, serialized, base64-encoded and
//! wrapped, together with a string attribute map, in the backend's
//! ingestion request body. Publishing is silently disabled when the
//! destination is not configured; delivery itself happens outside the
//! library and its failures never reach the caller, whose response was
//! already committed.

use vstd::prelude::*;
use vstd::slice::slice_to_vec;
use crate::json::{JsonValue, JsonSpec, spec_obj_get, obj_get, jspec_fields, lemma_jspec_fields,
    lemma_jspec_list, jspec_list, TYPE_KEY};
use crate::json_text::{spec_json_text, to_json_text};
use crate::sanitize::{spec_sanitize, sanitize_interaction, KEY_ID, KEY_APPLICATION_ID, KEY_DATA,
    KEY_GUILD_ID, KEY_CHANNEL_ID};
use crate::numeric::{spec_i64_dec, i64_dec};
use crate::bytesutil::{append_bytes, copy_bytes};
use base64::Engine;

verus! {

/// The base64 text of a byte string under the standard alphabet with
/// padding; a function of the bytes alone.
pub uninterp spec fn base64_of(b: Seq<u8>) -> Seq<u8>;

/// Relies on `base64::engine::general_purpose::STANDARD` and
/// `base64::Engine::encode`: standard-alphabet, padded base64 of the
/// input bytes, a function of the bytes alone.
#[verifier::external_body]
fn base64_encode(b: &Vec<u8>) -> (r: Vec<u8>)
    ensures
        r@ == base64_of(b@),
{
    base64::engine::general_purpose::STANDARD.encode(b.as_slice()).into_bytes()
}

/// A complete publish destination.
pub struct PublishConfig {
    pub host: Vec<u8>,
    pub project: Vec<u8>,
    pub topic: Vec<u8>,
}

/// One ready-to-send ingestion call: its URL and its JSON body.
pub struct Envelope {
    pub url: Vec<u8>,
    pub body: Vec<u8>,
}

pub const ATTR_INTERACTION_ID: [u8; 14] = [
    105,
    110,
    116,
    101,
    114,
    97,
    99,
    116,
    105,
    111,
    110,
    95,
    105,
    100,
];

pub const ATTR_INTERACTION_TYPE: [u8; 16] = [
    105,
    110,
    116,
    101,
    114,
    97,
    99,
    116,
    105,
    111,
    110,
    95,
    116,
    121,
    112,
    101,
];

pub const ATTR_COMMAND_NAME: [u8; 12] = [99, 111, 109, 109, 97, 110, 100, 95, 110, 97, 109, 101];

pub const ATTR_TIMESTAMP: [u8; 9] = [116, 105, 109, 101, 115, 116, 97, 109, 112];

pub const KEY_NAME: [u8; 4] = [110, 97, 109, 101];

pub const MESSAGES_KEY: [u8; 8] = [109, 101, 115, 115, 97, 103, 101, 115];

pub const ATTRIBUTES_KEY: [u8; 10] = [97, 116, 116, 114, 105, 98, 117, 116, 101, 115];

pub const URL_SCHEME: [u8; 7] = [104, 116, 116, 112, 58, 47, 47];

pub const URL_PROJECTS: [u8; 13] = [47, 118, 49, 47, 112, 114, 111, 106, 101, 99, 116, 115, 47];

pub const URL_TOPICS: [u8; 8] = [47, 116, 111, 112, 105, 99, 115, 47];

pub const URL_PUBLISH: [u8; 8] = [58, 112, 117, 98, 108, 105, 115, 104];

/// The ingestion endpoint for a destination.
pub open spec fn spec_publish_url(host: Seq<u8>, project: Seq<u8>, topic: Seq<u8>) -> Seq<u8> {
    URL_SCHEME@ + host + URL_PROJECTS@ + project + URL_TOPICS@ + topic + URL_PUBLISH@
}

/// The fields of an object document, and nothing for any other document.
pub open spec fn obj_fields(v: JsonSpec) -> Seq<(Seq<u8>, JsonSpec)> {
    match v {
        JsonSpec::Obj(fs) => fs,
        _ => Seq::empty(),
    }
}

pub open spec fn spec_attr_of_str(
    fs: Seq<(Seq<u8>, JsonSpec)>,
    key: Seq<u8>,
    attr: Seq<u8>,
) -> Seq<(Seq<u8>, JsonSpec)> {
    match spec_obj_get(fs, key) {
        Some(JsonSpec::Str(x)) => seq![(attr, JsonSpec::Str(x))],
        _ => Seq::empty(),
    }
}

pub open spec fn spec_attr_of_type(fs: Seq<(Seq<u8>, JsonSpec)>) -> Seq<(Seq<u8>, JsonSpec)> {
    match spec_obj_get(fs, TYPE_KEY@) {
        Some(JsonSpec::Int(t)) => seq![(ATTR_INTERACTION_TYPE@, JsonSpec::Str(spec_i64_dec(t)))],
        _ => Seq::empty(),
    }
}

pub open spec fn spec_attr_of_name(fs: Seq<(Seq<u8>, JsonSpec)>) -> Seq<(Seq<u8>, JsonSpec)> {
    match spec_obj_get(fs, KEY_DATA@) {
        Some(JsonSpec::Obj(dfs)) => match spec_obj_get(dfs, KEY_NAME@) {
            Some(JsonSpec::Str(x)) => seq![(ATTR_COMMAND_NAME@, JsonSpec::Str(x))],
            _ => Seq::empty(),
        },
        _ => Seq::empty(),
    }
}

/// The attribute map of a publish envelope, read off the sanitized
/// fields: the interaction id, the type in decimal, the application,
/// guild and channel ids, the command name under `data.name`, and a
/// caller-supplied generation timestamp, in that order, each only when
/// present with the expected shape.
pub open spec fn spec_attributes(
    fs: Seq<(Seq<u8>, JsonSpec)>,
    now_text: Seq<u8>,
) -> Seq<(Seq<u8>, JsonSpec)> {
    spec_attr_of_str(fs, KEY_ID@, ATTR_INTERACTION_ID@) + spec_attr_of_type(fs) + spec_attr_of_str(
        fs,
        KEY_APPLICATION_ID@,
        KEY_APPLICATION_ID@,
    ) + spec_attr_of_str(fs, KEY_GUILD_ID@, KEY_GUILD_ID@) + spec_attr_of_str(
        fs,
        KEY_CHANNEL_ID@,
        KEY_CHANNEL_ID@,
    ) + spec_attr_of_name(fs) + seq![(ATTR_TIMESTAMP@, JsonSpec::Str(now_text))]
}

/// The document a publish envelope's body serializes: one message whose
/// `data` is the base64 of the sanitized interaction's JSON and whose
/// `attributes` is the attribute map.
pub open spec fn spec_envelope_doc(v: JsonSpec, now_text: Seq<u8>) -> JsonSpec {
    JsonSpec::Obj(
        seq![
            (
                MESSAGES_KEY@,
                JsonSpec::Arr(
                    seq![
                        JsonSpec::Obj(
                            seq![
                                (KEY_DATA@, JsonSpec::Str(base64_of(spec_json_text(spec_sanitize(v))))),
                                (
                                    ATTRIBUTES_KEY@,
                                    JsonSpec::Obj(spec_attributes(obj_fields(spec_sanitize(v)), now_text)),
                                ),
                            ],
                        ),
                    ],
                ),
            ),
        ],
    )
}

pub open spec fn spec_envelope_body(v: JsonSpec, now_text: Seq<u8>) -> Seq<u8> {
    spec_json_text(spec_envelope_doc(v, now_text))
}

/// Builds the attribute pairs, exactly as `spec_attributes` states.
fn build_attributes(sanitized: &JsonValue, now_text: &Vec<u8>) -> (r: Vec<(Vec<u8>, JsonValue)>)
    ensures
        jspec_fields(r@) == spec_attributes(obj_fields(sanitized@), now_text@),
{
    let ghost fs = obj_fields(sanitized@);
    let mut attrs: Vec<(Vec<u8>, JsonValue)> = Vec::new();
    match sanitized {
        JsonValue::Obj(fields) => {
            match obj_get(fields, KEY_ID.as_slice()) {
                Some(JsonValue::Str(x)) => {
                    attrs.push(
                        (slice_to_vec(ATTR_INTERACTION_ID.as_slice()), JsonValue::Str(
                            copy_bytes(x),
                        )),
                    );
                },
                _ => {},
            }
            proof {
                lemma_jspec_fields(attrs@);
                assert(jspec_fields(attrs@) =~= spec_attr_of_str(
                    fs,
                    KEY_ID@,
                    ATTR_INTERACTION_ID@,
                ));
            }
            match obj_get(fields, TYPE_KEY.as_slice()) {
                Some(JsonValue::Int(t)) => {
                    attrs.push(
                        (slice_to_vec(ATTR_INTERACTION_TYPE.as_slice()), JsonValue::Str(
                            i64_dec(*t),
                        )),
                    );
                },
                _ => {},
            }
            proof {
                lemma_jspec_fields(attrs@);
                assert(jspec_fields(attrs@) =~= spec_attr_of_str(fs, KEY_ID@, ATTR_INTERACTION_ID@)
                    + spec_attr_of_type(fs));
            }
            match obj_get(fields, KEY_APPLICATION_ID.as_slice()) {
                Some(JsonValue::Str(x)) => {
                    attrs.push(
                        (slice_to_vec(KEY_APPLICATION_ID.as_slice()), JsonValue::Str(
                            copy_bytes(x),
                        )),
                    );
                },
                _ => {},
            }
            proof {
                lemma_jspec_fields(attrs@);
                assert(jspec_fields(attrs@) =~= spec_attr_of_str(fs, KEY_ID@, ATTR_INTERACTION_ID@)
                    + spec_attr_of_type(fs) + spec_attr_of_str(
                    fs,
                    KEY_APPLICATION_ID@,
                    KEY_APPLICATION_ID@,
                ));
            }
            match obj_get(fields, KEY_GUILD_ID.as_slice()) {
                Some(JsonValue::Str(x)) => {
                    attrs.push(
                        (slice_to_vec(KEY_GUILD_ID.as_slice()), JsonValue::Str(copy_bytes(x))),
                    );
                },
                _ => {},
            }
            proof {
                lemma_jspec_fields(attrs@);
                assert(jspec_fields(attrs@) =~= spec_attr_of_str(fs, KEY_ID@, ATTR_INTERACTION_ID@)
                    + spec_attr_of_type(fs) + spec_attr_of_str(
                    fs,
                    KEY_APPLICATION_ID@,
                    KEY_APPLICATION_ID@,
                ) + spec_attr_of_str(fs, KEY_GUILD_ID@, KEY_GUILD_ID@));
            }
            match obj_get(fields, KEY_CHANNEL_ID.as_slice()) {
                Some(JsonValue::Str(x)) => {
                    attrs.push(
                        (slice_to_vec(KEY_CHANNEL_ID.as_slice()), JsonValue::Str(copy_bytes(x))),
                    );
                },
                _ => {},
            }
            proof {
                lemma_jspec_fields(attrs@);
                assert(jspec_fields(attrs@) =~= spec_attr_of_str(fs, KEY_ID@, ATTR_INTERACTION_ID@)
                    + spec_attr_of_type(fs) + spec_attr_of_str(
                    fs,
                    KEY_APPLICATION_ID@,
                    KEY_APPLICATION_ID@,
                ) + spec_attr_of_str(fs, KEY_GUILD_ID@, KEY_GUILD_ID@) + spec_attr_of_str(
                    fs,
                    KEY_CHANNEL_ID@,
                    KEY_CHANNEL_ID@,
                ));
            }
            match obj_get(fields, KEY_DATA.as_slice()) {
                Some(JsonValue::Obj(dfields)) => {
                    match obj_get(dfields, KEY_NAME.as_slice()) {
                        Some(JsonValue::Str(x)) => {
                            attrs.push(
                                (slice_to_vec(ATTR_COMMAND_NAME.as_slice()), JsonValue::Str(
                                    copy_bytes(x),
                                )),
                            );
                        },
                        _ => {},
                    }
                },
                _ => {},
            }
        },
        _ => {},
    }
    proof {
        lemma_jspec_fields(attrs@);
        assert(jspec_fields(attrs@) =~= spec_attr_of_str(fs, KEY_ID@, ATTR_INTERACTION_ID@)
            + spec_attr_of_type(fs) + spec_attr_of_str(fs, KEY_APPLICATION_ID@, KEY_APPLICATION_ID@)
            + spec_attr_of_str(fs, KEY_GUILD_ID@, KEY_GUILD_ID@) + spec_attr_of_str(
            fs,
            KEY_CHANNEL_ID@,
            KEY_CHANNEL_ID@,
        ) + spec_attr_of_name(fs));
    }
    attrs.push((slice_to_vec(ATTR_TIMESTAMP.as_slice()), JsonValue::Str(copy_bytes(now_text))));
    proof {
        lemma_jspec_fields(attrs@);
        assert(jspec_fields(attrs@) =~= spec_attributes(fs, now_text@));
    }
    attrs
}

/// Builds the ready-to-send ingestion call for one interaction, exactly
/// as `spec_publish_url` and `spec_envelope_body` state.
pub fn build_envelope(config: &PublishConfig, interaction: JsonValue, now_text: &Vec<u8>) -> (r:
    Envelope)
    ensures
        r.url@ == spec_publish_url(config.host@, config.project@, config.topic@),
        r.body@ == spec_envelope_body(interaction@, now_text@),
{
    let ghost iv = interaction@;
    let sanitized = sanitize_interaction(interaction);
    let json = to_json_text(&sanitized);
    let b64 = base64_encode(&json);
    let attrs = build_attributes(&sanitized, now_text);
    let mut inner: Vec<(Vec<u8>, JsonValue)> = Vec::new();
    inner.push((slice_to_vec(KEY_DATA.as_slice()), JsonValue::Str(b64)));
    inner.push((slice_to_vec(ATTRIBUTES_KEY.as_slice()), JsonValue::Obj(attrs)));
    let mut arr: Vec<JsonValue> = Vec::new();
    arr.push(JsonValue::Obj(inner));
    let mut outer: Vec<(Vec<u8>, JsonValue)> = Vec::new();
    outer.push((slice_to_vec(MESSAGES_KEY.as_slice()), JsonValue::Arr(arr)));
    let doc = JsonValue::Obj(outer);
    proof {
        lemma_jspec_fields(inner@);
        lemma_jspec_list(arr@);
        lemma_jspec_fields(outer@);
        assert(jspec_fields(inner@) =~= spec_envelope_inner(iv, now_text@));
        assert(jspec_list(arr@) =~= seq![JsonSpec::Obj(spec_envelope_inner(iv, now_text@))]);
        assert(jspec_fields(outer@) =~= obj_fields(spec_envelope_doc(iv, now_text@)));
        assert(doc@ == spec_envelope_doc(iv, now_text@));
    }
    let body = to_json_text(&doc);
    let mut url: Vec<u8> = Vec::new();
    append_bytes(&mut url, URL_SCHEME.as_slice());
    append_bytes(&mut url, config.host.as_slice());
    append_bytes(&mut url, URL_PROJECTS.as_slice());
    append_bytes(&mut url, config.project.as_slice());
    append_bytes(&mut url, URL_TOPICS.as_slice());
    append_bytes(&mut url, config.topic.as_slice());
    append_bytes(&mut url, URL_PUBLISH.as_slice());
    proof {
        assert(url@ =~= spec_publish_url(config.host@, config.project@, config.topic@));
    }
    Envelope { url, body }
}

/// The inner message object of an envelope.
pub open spec fn spec_envelope_inner(v: JsonSpec, now_text: Seq<u8>) -> Seq<(Seq<u8>, JsonSpec)> {
    seq![
        (KEY_DATA@, JsonSpec::Str(base64_of(spec_json_text(spec_sanitize(v))))),
        (ATTRIBUTES_KEY@, JsonSpec::Obj(spec_attributes(obj_fields(spec_sanitize(v)), now_text))),
    ]
}

/// Decides a publication: a complete destination yields exactly one
/// envelope for the interaction; an incomplete one yields none, by
/// design and not as an error.
pub fn publish_plan(
    config: &Option<PublishConfig>,
    interaction: JsonValue,
    now_text: &Vec<u8>,
) -> (r: Option<Envelope>)
    ensures
        match config {
            Some(c) => r matches Some(env) && env.url@ == spec_publish_url(
                c.host@,
                c.project@,
                c.topic@,
            ) && env.body@ == spec_envelope_body(interaction@, now_text@),
            None => r is None,
        },
{
    match config {
        Some(c) => Some(build_envelope(c, interaction, now_text)),
        None => None,
    }
}

} // verus!
