//! Serialization of payload documents to JSON text.
//!
//! The gateway emits JSON itself: response bodies, the sanitized payload
//! inside a publish envelope, and the envelope body. Strings are quoted
//! with `"` and `\` escaped and control bytes written as `\u00XX`; all
//! other bytes are copied verbatim, so a document built from valid UTF-8
//! serializes to valid UTF-8. A raw number is emitted as its kept text.

use vstd::prelude::*;
use crate::json::{JsonValue, JsonSpec};
use crate::numeric::{spec_i64_dec, i64_dec};
use crate::bytesutil::append_bytes;

verus! {

/// Lowercase hex digit of a value below sixteen.
pub open spec fn hex_digit(v: int) -> u8 {
    if v < 10 {
        (48 + v) as u8
    } else {
        (87 + v) as u8
    }
}

/// The escaped form of one string byte.
pub open spec fn spec_escape_byte(b: u8) -> Seq<u8> {
    if b == 34 {
        seq![92u8, 34u8]
    } else if b == 92 {
        seq![92u8, 92u8]
    } else if b < 32 {
        seq![92u8, 117u8, 48u8, 48u8, hex_digit(b as int / 16), hex_digit(b as int % 16)]
    } else {
        seq![b]
    }
}

pub open spec fn spec_escape(s: Seq<u8>) -> Seq<u8>
    decreases s.len(),
{
    if s.len() == 0 {
        Seq::empty()
    } else {
        spec_escape(s.drop_last()) + spec_escape_byte(s.last())
    }
}

/// The JSON text of a string value, quotes included.
pub open spec fn spec_str_text(s: Seq<u8>) -> Seq<u8> {
    seq![34u8] + spec_escape(s) + seq![34u8]
}

/// The JSON text of a document.
pub open spec fn spec_json_text(v: JsonSpec) -> Seq<u8>
    decreases v,
{
    match v {
        JsonSpec::Null => seq![110u8, 117u8, 108u8, 108u8],
        JsonSpec::Bool(b) => if b {
            seq![116u8, 114u8, 117u8, 101u8]
        } else {
            seq![102u8, 97u8, 108u8, 115u8, 101u8]
        },
        JsonSpec::Int(i) => spec_i64_dec(i),
        JsonSpec::Num(t) => t,
        JsonSpec::Str(s) => spec_str_text(s),
        JsonSpec::Arr(items) => seq![91u8] + spec_list_text(items) + seq![93u8],
        JsonSpec::Obj(fields) => seq![123u8] + spec_fields_text(fields) + seq![125u8],
    }
}

pub open spec fn spec_list_text(items: Seq<JsonSpec>) -> Seq<u8>
    decreases items,
{
    if items.len() == 0 {
        Seq::empty()
    } else if items.len() == 1 {
        spec_json_text(items.last())
    } else {
        spec_list_text(items.drop_last()) + seq![44u8] + spec_json_text(items.last())
    }
}

pub open spec fn spec_fields_text(fields: Seq<(Seq<u8>, JsonSpec)>) -> Seq<u8>
    decreases fields,
{
    if fields.len() == 0 {
        Seq::empty()
    } else if fields.len() == 1 {
        spec_pair_text(fields.last())
    } else {
        spec_fields_text(fields.drop_last()) + seq![44u8] + spec_pair_text(fields.last())
    }
}

pub open spec fn spec_pair_text(pair: (Seq<u8>, JsonSpec)) -> Seq<u8>
    decreases pair,
{
    spec_str_text(pair.0) + seq![58u8] + spec_json_text(pair.1)
}

/// Appends the escaped form of a string's bytes.
#[verifier::loop_isolation(false)]
fn write_escaped(s: &[u8], out: &mut Vec<u8>)
    ensures
        final(out)@ == old(out)@ + spec_escape(s@),
{
    let mut i: usize = 0;
    proof {
        assert(s@.take(0) =~= Seq::<u8>::empty());
        assert(out@ =~= out@ + spec_escape(s@.take(0)));
    }
    while i < s.len()
        invariant
            i <= s@.len(),
            out@ == old(out)@ + spec_escape(s@.take(i as int)),
        decreases s@.len() - i,
    {
        let b = s[i];
        proof {
            assert(s@.take(i + 1).drop_last() =~= s@.take(i as int));
            assert(s@.take(i + 1).last() == s@[i as int]);
        }
        if b == 34 {
            out.push(92);
            out.push(34);
        } else if b == 92 {
            out.push(92);
            out.push(92);
        } else if b < 32 {
            out.push(92);
            out.push(117);
            out.push(48);
            out.push(48);
            let hi = b / 16;
            let lo = b % 16;
            out.push(if hi < 10 { 48 + hi } else { 87 + hi });
            out.push(if lo < 10 { 48 + lo } else { 87 + lo });
        } else {
            out.push(b);
        }
        proof {
            assert(out@ =~= old(out)@ + spec_escape(s@.take(i + 1)));
        }
        i += 1;
    }
    proof {
        assert(s@.take(s@.len() as int) =~= s@);
    }
}

/// Appends a quoted, escaped JSON string.
fn write_str(s: &[u8], out: &mut Vec<u8>)
    ensures
        final(out)@ == old(out)@ + spec_str_text(s@),
{
    out.push(34);
    write_escaped(s, out);
    out.push(34);
    proof {
        assert(out@ =~= old(out)@ + spec_str_text(s@));
    }
}

/// Appends the JSON text of a document, exactly as `spec_json_text`
/// states.
#[verifier::loop_isolation(false)]
pub fn write_json(v: &JsonValue, out: &mut Vec<u8>)
    ensures
        final(out)@ == old(out)@ + spec_json_text(v@),
    decreases v,
{
    match v {
        JsonValue::Null => {
            out.push(110);
            out.push(117);
            out.push(108);
            out.push(108);
            proof {
                assert(out@ =~= old(out)@ + spec_json_text(v@));
            }
        },
        JsonValue::Bool(b) => {
            if *b {
                out.push(116);
                out.push(114);
                out.push(117);
                out.push(101);
            } else {
                out.push(102);
                out.push(97);
                out.push(108);
                out.push(115);
                out.push(101);
            }
            proof {
                assert(out@ =~= old(out)@ + spec_json_text(v@));
            }
        },
        JsonValue::Int(i) => {
            let digits = i64_dec(*i);
            append_bytes(out, digits.as_slice());
        },
        JsonValue::Num(t) => {
            append_bytes(out, t.as_slice());
        },
        JsonValue::Str(s) => {
            write_str(s.as_slice(), out);
        },
        JsonValue::Arr(items) => {
            out.push(91);
            let ghost base = out@;
            let ghost iv = crate::json::jspec_list(items@);
            proof {
                crate::json::lemma_jspec_list(items@);
                assert(iv.take(0) =~= Seq::<JsonSpec>::empty());
            }
            let mut i: usize = 0;
            while i < items.len()
                invariant
                    i <= items@.len(),
                    out@ == base + spec_list_text(iv.take(i as int)),
                decreases items@.len() - i,
            {
                if i > 0 {
                    out.push(44);
                }
                write_json(&items[i], out);
                proof {
                    assert(iv.take(i + 1).drop_last() =~= iv.take(i as int));
                    assert(iv.take(i + 1).last() == iv[i as int]);
                    assert(iv[i as int] == jspec_of(items@[i as int]));
                    if i == 0 {
                        assert(out@ =~= base + spec_list_text(iv.take(1)));
                    } else {
                        assert(out@ =~= base + spec_list_text(iv.take(i + 1)));
                    }
                }
                i += 1;
            }
            out.push(93);
            proof {
                assert(iv.take(items@.len() as int) =~= iv);
                assert(out@ =~= old(out)@ + spec_json_text(v@));
            }
        },
        JsonValue::Obj(fields) => {
            out.push(123);
            let ghost base = out@;
            let ghost fv = crate::json::jspec_fields(fields@);
            proof {
                crate::json::lemma_jspec_fields(fields@);
                assert(fv.take(0) =~= Seq::<(Seq<u8>, JsonSpec)>::empty());
            }
            let mut i: usize = 0;
            while i < fields.len()
                invariant
                    i <= fields@.len(),
                    out@ == base + spec_fields_text(fv.take(i as int)),
                decreases fields@.len() - i,
            {
                if i > 0 {
                    out.push(44);
                }
                write_str(fields[i].0.as_slice(), out);
                out.push(58);
                write_json(&fields[i].1, out);
                proof {
                    assert(fv.take(i + 1).drop_last() =~= fv.take(i as int));
                    assert(fv.take(i + 1).last() == fv[i as int]);
                    assert(fv[i as int] == (fields@[i as int].0@, jspec_of(fields@[i as int].1)));
                    assert(spec_pair_text(fv[i as int]) == spec_str_text(fields@[i as int].0@)
                        + seq![58u8] + spec_json_text(jspec_of(fields@[i as int].1)));
                    if i == 0 {
                        assert(spec_fields_text(fv.take(1)) == spec_pair_text(fv[0]));
                        assert(out@ =~= base + spec_fields_text(fv.take(1)));
                    } else {
                        assert(spec_fields_text(fv.take(i + 1)) == spec_fields_text(
                            fv.take(i as int),
                        ) + seq![44u8] + spec_pair_text(fv[i as int]));
                        assert(out@ =~= base + spec_fields_text(fv.take(i + 1)));
                    }
                }
                i += 1;
            }
            out.push(125);
            proof {
                assert(fv.take(fields@.len() as int) =~= fv);
                assert(out@ =~= old(out)@ + spec_json_text(v@));
            }
        },
    }
}

/// Helper name so proof blocks can speak of a child's model tersely.
pub open spec fn jspec_of(v: JsonValue) -> JsonSpec {
    crate::json::jspec(v)
}

/// The JSON text of a document as a fresh byte string.
pub fn to_json_text(v: &JsonValue) -> (r: Vec<u8>)
    ensures
        r@ == spec_json_text(v@),
{
    let mut out: Vec<u8> = Vec::new();
    write_json(v, &mut out);
    proof {
        assert(out@ =~= spec_json_text(v@));
    }
    out
}

} // verus!
