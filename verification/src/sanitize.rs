//! Field-level payload sanitization.
//!
//! Before an interaction leaves the process it is projected onto a fixed
//! allow-list of keys. The projection is the single chokepoint that keeps
//! the bearer `token` field (present on every real platform payload) from
//! ever being published; it copies allowed pairs unchanged, never inspects
//! nested values, and turns any non-object into an empty object.

use vstd::prelude::*;
use crate::json::{JsonValue, JsonSpec, jspec_fields, lemma_jspec_fields};
use crate::bytesutil::bytes_eq;

verus! {

pub const KEY_TYPE: [u8; 4] = [116, 121, 112, 101];

pub const KEY_ID: [u8; 2] = [105, 100];

pub const KEY_APPLICATION_ID: [u8; 14] = [
    97,
    112,
    112,
    108,
    105,
    99,
    97,
    116,
    105,
    111,
    110,
    95,
    105,
    100,
];

pub const KEY_DATA: [u8; 4] = [100, 97, 116, 97];

pub const KEY_GUILD_ID: [u8; 8] = [103, 117, 105, 108, 100, 95, 105, 100];

pub const KEY_CHANNEL_ID: [u8; 10] = [99, 104, 97, 110, 110, 101, 108, 95, 105, 100];

pub const KEY_MEMBER: [u8; 6] = [109, 101, 109, 98, 101, 114];

pub const KEY_USER: [u8; 4] = [117, 115, 101, 114];

pub const KEY_LOCALE: [u8; 6] = [108, 111, 99, 97, 108, 101];

pub const KEY_GUILD_LOCALE: [u8; 12] = [103, 117, 105, 108, 100, 95, 108, 111, 99, 97, 108, 101];

/// The bearer credential key that must never be published.
pub const KEY_TOKEN: [u8; 5] = [116, 111, 107, 101, 110];

/// The fixed allow-list of keys that may leave the process.
pub open spec fn is_allowed_key(k: Seq<u8>) -> bool {
    ||| k == KEY_TYPE@
    ||| k == KEY_ID@
    ||| k == KEY_APPLICATION_ID@
    ||| k == KEY_DATA@
    ||| k == KEY_GUILD_ID@
    ||| k == KEY_CHANNEL_ID@
    ||| k == KEY_MEMBER@
    ||| k == KEY_USER@
    ||| k == KEY_LOCALE@
    ||| k == KEY_GUILD_LOCALE@
}

pub fn allowed_key(k: &[u8]) -> (r: bool)
    ensures
        r == is_allowed_key(k@),
{
    bytes_eq(k, KEY_TYPE.as_slice()) || bytes_eq(k, KEY_ID.as_slice()) || bytes_eq(
        k,
        KEY_APPLICATION_ID.as_slice(),
    ) || bytes_eq(k, KEY_DATA.as_slice()) || bytes_eq(k, KEY_GUILD_ID.as_slice()) || bytes_eq(
        k,
        KEY_CHANNEL_ID.as_slice(),
    ) || bytes_eq(k, KEY_MEMBER.as_slice()) || bytes_eq(k, KEY_USER.as_slice()) || bytes_eq(
        k,
        KEY_LOCALE.as_slice(),
    ) || bytes_eq(k, KEY_GUILD_LOCALE.as_slice())
}

/// The pairs of a field list whose keys are on the allow-list, in their
/// original order and with their values untouched.
pub open spec fn spec_sanitize_fields(fields: Seq<(Seq<u8>, JsonSpec)>) -> Seq<(Seq<u8>, JsonSpec)>
    decreases fields.len(),
{
    if fields.len() == 0 {
        Seq::empty()
    } else {
        let rest = spec_sanitize_fields(fields.drop_last());
        if is_allowed_key(fields.last().0) {
            rest.push(fields.last())
        } else {
            rest
        }
    }
}

/// The sanitized projection of a payload: the allow-listed pairs of an
/// object, and the empty object for anything that is not an object.
pub open spec fn spec_sanitize(v: JsonSpec) -> JsonSpec {
    match v {
        JsonSpec::Obj(fields) => JsonSpec::Obj(spec_sanitize_fields(fields)),
        _ => JsonSpec::Obj(Seq::empty()),
    }
}

pub proof fn lemma_sanitize_fields_concat(a: Seq<(Seq<u8>, JsonSpec)>, b: Seq<(Seq<u8>, JsonSpec)>)
    ensures
        spec_sanitize_fields(a + b) == spec_sanitize_fields(a) + spec_sanitize_fields(b),
    decreases b.len(),
{
    if b.len() == 0 {
        assert(a + b =~= a);
        assert(spec_sanitize_fields(a) + spec_sanitize_fields(b) =~= spec_sanitize_fields(a));
    } else {
        lemma_sanitize_fields_concat(a, b.drop_last());
        assert((a + b).drop_last() =~= a + b.drop_last());
        assert((a + b).last() == b.last());
        if is_allowed_key(b.last().0) {
            assert(spec_sanitize_fields(a) + spec_sanitize_fields(b.drop_last()).push(b.last())
                =~= (spec_sanitize_fields(a) + spec_sanitize_fields(b.drop_last())).push(b.last()));
        }
    }
}

/// Sanitizes a payload, exactly as `spec_sanitize` states: only
/// allow-listed keys survive, values move over unchanged, anything that is
/// not an object becomes the empty object.
#[verifier::loop_isolation(false)]
pub fn sanitize_interaction(v: JsonValue) -> (r: JsonValue)
    ensures
        r@ == spec_sanitize(v@),
{
    match v {
        JsonValue::Obj(mut fields) => {
            let ghost orig = fields@;
            let mut out: Vec<(Vec<u8>, JsonValue)> = Vec::new();
            proof {
                assert(jspec_fields(orig) =~= jspec_fields(Seq::<(Vec<u8>, JsonValue)>::empty())
                    + jspec_fields(fields@));
                assert(spec_sanitize_fields(Seq::<(Seq<u8>, JsonSpec)>::empty())
                    =~= Seq::<(Seq<u8>, JsonSpec)>::empty());
            }
            while fields.len() > 0
                invariant
                    jspec_fields(out@) + spec_sanitize_fields(jspec_fields(fields@))
                        =~= spec_sanitize_fields(jspec_fields(orig)),
                    forall|i: int|
                        0 <= i < out@.len() ==> is_allowed_key(#[trigger] jspec_fields(out@)[i].0),
                decreases fields@.len(),
            {
                let ghost before = fields@;
                let ghost out_before = out@;
                let pair = fields.remove(0);
                proof {
                    lemma_jspec_fields(before);
                    lemma_jspec_fields(fields@);
                    assert(jspec_fields(before)
                        =~= seq![(before[0].0@, crate::json::jspec(before[0].1))]
                            + jspec_fields(fields@));
                    lemma_sanitize_fields_concat(
                        seq![(before[0].0@, crate::json::jspec(before[0].1))],
                        jspec_fields(fields@),
                    );
                    assert(seq![(before[0].0@, crate::json::jspec(before[0].1))].drop_last()
                        =~= Seq::<(Seq<u8>, JsonSpec)>::empty());
                }
                if allowed_key(pair.0.as_slice()) {
                    out.push(pair);
                    proof {
                        lemma_jspec_fields(out_before);
                        lemma_jspec_fields(out@);
                        assert(jspec_fields(out@)
                            =~= jspec_fields(out_before).push(
                                (before[0].0@, crate::json::jspec(before[0].1))));
                    }
                }
            }
            proof {
                assert(jspec_fields(fields@) =~= Seq::<(Seq<u8>, JsonSpec)>::empty());
                assert(jspec_fields(out@) =~= spec_sanitize_fields(jspec_fields(orig)));
            }
            JsonValue::Obj(out)
        },
        _ => {
            let out: Vec<(Vec<u8>, JsonValue)> = Vec::new();
            proof {
                assert(jspec_fields(out@) =~= Seq::<(Seq<u8>, JsonSpec)>::empty());
            }
            JsonValue::Obj(out)
        },
    }
}

/// Sanitized output never carries the token key, and every surviving pair
/// is an unchanged pair of the input with an allow-listed key; every
/// allow-listed pair of the input survives.
pub proof fn lemma_sanitize_no_token(fields: Seq<(Seq<u8>, JsonSpec)>)
    ensures
        forall|i: int|
            0 <= i < spec_sanitize_fields(fields).len() ==> is_allowed_key(
                #[trigger] spec_sanitize_fields(fields)[i].0,
            ) && spec_sanitize_fields(fields)[i].0 != KEY_TOKEN@,
        forall|i: int|
            0 <= i < spec_sanitize_fields(fields).len() ==> fields.contains(
                #[trigger] spec_sanitize_fields(fields)[i],
            ),
        forall|j: int|
            0 <= j < fields.len() && is_allowed_key(#[trigger] fields[j].0)
                ==> spec_sanitize_fields(fields).contains(fields[j]),
    decreases fields.len(),
{
    assert(!is_allowed_key(KEY_TOKEN@));
    if fields.len() > 0 {
        lemma_sanitize_no_token(fields.drop_last());
        let rest = spec_sanitize_fields(fields.drop_last());
        assert(forall|i: int|
            0 <= i < fields.len() - 1 ==> #[trigger] fields.drop_last()[i] == fields[i]);
        assert(forall|p: (Seq<u8>, JsonSpec)|
            fields.drop_last().contains(p) ==> fields.contains(p));
        if is_allowed_key(fields.last().0) {
            assert(spec_sanitize_fields(fields) == rest.push(fields.last()));
            assert(fields.contains(fields.last()));
            assert forall|p: (Seq<u8>, JsonSpec)| rest.contains(p)
                implies #[trigger] rest.push(fields.last()).contains(p) by {
                let w = choose|w: int| 0 <= w < rest.len() && rest[w] == p;
                assert(rest.push(fields.last())[w] == p);
            }
            assert(rest.push(fields.last()).contains(fields.last())) by {
                assert(rest.push(fields.last())[rest.len() as int] == fields.last());
            }
        }
        assert forall|j: int| 0 <= j < fields.len() && is_allowed_key(fields[j].0)
            implies spec_sanitize_fields(fields).contains(fields[j]) by {
            if j < fields.len() - 1 {
                assert(fields.drop_last()[j] == fields[j]);
                assert(is_allowed_key(fields.drop_last()[j].0));
                assert(rest.contains(fields.drop_last()[j]));
            }
        }
    }
}

/// Sanitizing is idempotent: sanitizing a sanitized payload changes
/// nothing.
pub proof fn lemma_sanitize_idempotent(v: JsonSpec)
    ensures
        spec_sanitize(spec_sanitize(v)) == spec_sanitize(v),
{
    match v {
        JsonSpec::Obj(fields) => {
            lemma_sanitize_fields_idempotent(fields);
        },
        _ => {
            assert(spec_sanitize_fields(Seq::<(Seq<u8>, JsonSpec)>::empty())
                =~= Seq::<(Seq<u8>, JsonSpec)>::empty());
        },
    }
}

pub proof fn lemma_sanitize_fields_idempotent(fields: Seq<(Seq<u8>, JsonSpec)>)
    ensures
        spec_sanitize_fields(spec_sanitize_fields(fields)) == spec_sanitize_fields(fields),
    decreases fields.len(),
{
    if fields.len() > 0 {
        lemma_sanitize_fields_idempotent(fields.drop_last());
        let rest = spec_sanitize_fields(fields.drop_last());
        if is_allowed_key(fields.last().0) {
            assert(rest.push(fields.last()).drop_last() =~= rest);
            assert(spec_sanitize_fields(rest.push(fields.last()))
                == spec_sanitize_fields(rest).push(fields.last()));
        }
    }
}

} // verus!
