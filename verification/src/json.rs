//! The document model for interaction payloads.
//!
//! A payload is a JSON document: nulls, booleans, numbers — an `i64`
//! where the text is a plain integer in range, otherwise the number's
//! text kept verbatim — byte strings (the decoded contents of JSON
//! strings, always valid UTF-8 when the source text was), arrays, and
//! objects as ordered lists of key/value pairs in which a later duplicate
//! key shadows an earlier one.

use vstd::prelude::*;

verus! {

/// The mathematical model of a document.
pub enum JsonSpec {
    Null,
    Bool(bool),
    Int(int),
    /// A number that is not an `i64` integer, as its exact source text.
    Num(Seq<u8>),
    Str(Seq<u8>),
    Arr(Seq<JsonSpec>),
    Obj(Seq<(Seq<u8>, JsonSpec)>),
}

/// A JSON document as held and produced by the gateway.
pub enum JsonValue {
    Null,
    Bool(bool),
    Int(i64),
    /// A number that is not an `i64` integer, as its exact source text.
    Num(Vec<u8>),
    Str(Vec<u8>),
    Arr(Vec<JsonValue>),
    Obj(Vec<(Vec<u8>, JsonValue)>),
}

pub open spec fn jspec(v: JsonValue) -> JsonSpec
    decreases v,
{
    match v {
        JsonValue::Null => JsonSpec::Null,
        JsonValue::Bool(b) => JsonSpec::Bool(b),
        JsonValue::Int(i) => JsonSpec::Int(i as int),
        JsonValue::Num(t) => JsonSpec::Num(t@),
        JsonValue::Str(s) => JsonSpec::Str(s@),
        JsonValue::Arr(items) => JsonSpec::Arr(jspec_list(items@)),
        JsonValue::Obj(fields) => JsonSpec::Obj(jspec_fields(fields@)),
    }
}

pub open spec fn jspec_list(items: Seq<JsonValue>) -> Seq<JsonSpec>
    decreases items,
{
    if items.len() == 0 {
        Seq::empty()
    } else {
        jspec_list(items.drop_last()).push(jspec(items.last()))
    }
}

pub open spec fn jspec_fields(fields: Seq<(Vec<u8>, JsonValue)>) -> Seq<(Seq<u8>, JsonSpec)>
    decreases fields,
{
    if fields.len() == 0 {
        Seq::empty()
    } else {
        jspec_fields(fields.drop_last()).push((fields.last().0@, jspec(fields.last().1)))
    }
}

impl View for JsonValue {
    type V = JsonSpec;

    open spec fn view(&self) -> JsonSpec {
        jspec(*self)
    }
}

pub proof fn lemma_jspec_list(items: Seq<JsonValue>)
    ensures
        jspec_list(items).len() == items.len(),
        forall|i: int|
            0 <= i < items.len() ==> #[trigger] jspec_list(items)[i] == jspec(items[i]),
    decreases items.len(),
{
    if items.len() > 0 {
        lemma_jspec_list(items.drop_last());
    }
}

pub proof fn lemma_jspec_fields(fields: Seq<(Vec<u8>, JsonValue)>)
    ensures
        jspec_fields(fields).len() == fields.len(),
        forall|i: int|
            0 <= i < fields.len() ==> #[trigger] jspec_fields(fields)[i]
                == (fields[i].0@, jspec(fields[i].1)),
    decreases fields.len(),
{
    if fields.len() > 0 {
        lemma_jspec_fields(fields.drop_last());
    }
}

/// The value under `key` in an object's field list; when the key occurs
/// more than once the last occurrence decides.
pub open spec fn spec_obj_get(fields: Seq<(Seq<u8>, JsonSpec)>, key: Seq<u8>) -> Option<JsonSpec>
    decreases fields.len(),
{
    if fields.len() == 0 {
        None
    } else if fields.last().0 == key {
        Some(fields.last().1)
    } else {
        spec_obj_get(fields.drop_last(), key)
    }
}

/// Looks a key up in an object's field list, exactly as `spec_obj_get`
/// states.
#[verifier::loop_isolation(false)]
pub fn obj_get<'a>(fields: &'a Vec<(Vec<u8>, JsonValue)>, key: &[u8]) -> (r: Option<
    &'a JsonValue,
>)
    ensures
        match r {
            Some(v) => spec_obj_get(jspec_fields(fields@), key@) == Some(v@),
            None => spec_obj_get(jspec_fields(fields@), key@) is None,
        },
{
    let ghost fv = jspec_fields(fields@);
    proof {
        lemma_jspec_fields(fields@);
        assert(fv.take(fields@.len() as int) =~= fv);
    }
    let mut k = fields.len();
    while k > 0
        invariant
            k <= fields@.len(),
            spec_obj_get(fv, key@) == spec_obj_get(fv.take(k as int), key@),
        decreases k,
    {
        k = k - 1;
        proof {
            assert(fv.take(k + 1).drop_last() =~= fv.take(k as int));
            assert(fv.take(k + 1).last() == fv[k as int]);
        }
        if crate::bytesutil::bytes_eq(fields[k].0.as_slice(), key) {
            return Some(&fields[k].1);
        }
    }
    proof {
        assert(fv.take(0) =~= Seq::<(Seq<u8>, JsonSpec)>::empty());
    }
    None
}

/// The `type` field of a parsed payload, when the payload is an object
/// and the field holds an integer.
pub open spec fn spec_interaction_type(v: JsonSpec) -> Option<int> {
    match v {
        JsonSpec::Obj(fields) => match spec_obj_get(fields, TYPE_KEY@) {
            Some(JsonSpec::Int(t)) => Some(t),
            _ => None,
        },
        _ => None,
    }
}

/// The key that declares an interaction's type.
pub const TYPE_KEY: [u8; 4] = [116, 121, 112, 101];

/// Reads the declared interaction type, exactly as `spec_interaction_type`
/// states.
pub fn interaction_type(v: &JsonValue) -> (r: Option<i64>)
    ensures
        match r {
            Some(t) => spec_interaction_type(v@) == Some(t as int),
            None => spec_interaction_type(v@) is None,
        },
{
    match v {
        JsonValue::Obj(fields) => {
            match obj_get(fields, TYPE_KEY.as_slice()) {
                Some(JsonValue::Int(t)) => Some(*t),
                _ => None,
            }
        },
        _ => None,
    }
}

} // verus!
