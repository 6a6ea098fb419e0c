//! Parsing of JSON text into payload documents.
//!
//! The accepted grammar is JSON: a number that is a plain integer in
//! `i64` range becomes an integer, any other well-formed number keeps its
//! exact text; an unpaired surrogate escape, an unescaped control byte,
//! or any trailing text makes the whole document invalid. Strings decode
//! the eight simple escapes and `\uXXXX` escapes, surrogate pairs
//! included, to UTF-8 bytes; all other bytes are taken verbatim.
//! Duplicate object keys are kept in order; readers let the last win.

use vstd::prelude::*;
use crate::json::{JsonValue, JsonSpec, jspec_list, jspec_fields};
use crate::numeric::{is_digit, digits_val, pow10, lemma_digits_val_bounds, lemma_digits_val_lower,
    lemma_pow10_19, lemma_pow10_mono};
use crate::hexcode::{is_hex_digit, hex_val, hex_digit_value};

verus! {

pub open spec fn is_ws(b: u8) -> bool {
    b == 32 || b == 9 || b == 10 || b == 13
}

/// The first position at or after `i` that holds no whitespace.
pub open spec fn spec_skip_ws(s: Seq<u8>, i: int) -> int
    decreases s.len() - i,
{
    if 0 <= i < s.len() && is_ws(s[i]) {
        spec_skip_ws(s, i + 1)
    } else {
        i
    }
}

/// The first position at or after `i` that holds no decimal digit.
pub open spec fn spec_digits_end(s: Seq<u8>, i: int) -> int
    decreases s.len() - i,
{
    if 0 <= i < s.len() && is_digit(s[i]) {
        spec_digits_end(s, i + 1)
    } else {
        i
    }
}

/// The byte a simple string escape denotes.
pub open spec fn spec_simple_escape(b: u8) -> Option<u8> {
    if b == 34 {
        Some(34u8)
    } else if b == 92 {
        Some(92u8)
    } else if b == 47 {
        Some(47u8)
    } else if b == 98 {
        Some(8u8)
    } else if b == 102 {
        Some(12u8)
    } else if b == 110 {
        Some(10u8)
    } else if b == 114 {
        Some(13u8)
    } else if b == 116 {
        Some(9u8)
    } else {
        None
    }
}

/// The UTF-8 encoding of a scalar value.
pub open spec fn spec_utf8_enc(c: int) -> Seq<u8> {
    if c < 0x80 {
        seq![c as u8]
    } else if c < 0x800 {
        seq![(192 + c / 64) as u8, (128 + c % 64) as u8]
    } else if c < 0x10000 {
        seq![(224 + c / 4096) as u8, (128 + (c / 64) % 64) as u8, (128 + c % 64) as u8]
    } else {
        seq![
            (240 + c / 262144) as u8,
            (128 + (c / 4096) % 64) as u8,
            (128 + (c / 64) % 64) as u8,
            (128 + c % 64) as u8,
        ]
    }
}

/// The scalar a surrogate escape pair denotes.
pub open spec fn spec_pair_scalar(hi: int, lo: int) -> int {
    0x10000 + (hi - 0xd800) * 0x400 + (lo - 0xdc00)
}

/// The decoded contents of a string body starting at `i` (just after the
/// opening quote), and the position just after the closing quote.
pub open spec fn spec_parse_str_chars(s: Seq<u8>, i: int) -> Option<(Seq<u8>, int)>
    decreases s.len() - i,
{
    if i < 0 || i >= s.len() {
        None
    } else if s[i] == 34 {
        Some((Seq::empty(), i + 1))
    } else if s[i] == 92 {
        if i + 1 >= s.len() {
            None
        } else if spec_simple_escape(s[i + 1]) is Some {
            match spec_parse_str_chars(s, i + 2) {
                Some((rest, end)) => Some(
                    (seq![spec_simple_escape(s[i + 1])->Some_0] + rest, end),
                ),
                None => None,
            }
        } else if s[i + 1] == 117 {
            if i + 6 > s.len() {
                None
            } else if is_hex_digit(s[i + 2]) && is_hex_digit(s[i + 3]) && is_hex_digit(s[i + 4])
                && is_hex_digit(s[i + 5]) {
                let code = hex_val(s[i + 2]) * 4096 + hex_val(s[i + 3]) * 256 + hex_val(s[i + 4])
                    * 16 + hex_val(s[i + 5]);
                if 0xd800 <= code < 0xdc00 {
                    // A high surrogate must pair with a low surrogate escape.
                    if i + 12 > s.len() {
                        None
                    } else if s[i + 6] == 92 && s[i + 7] == 117 && is_hex_digit(s[i + 8])
                        && is_hex_digit(s[i + 9]) && is_hex_digit(s[i + 10])
                        && is_hex_digit(s[i + 11]) {
                        let lo = hex_val(s[i + 8]) * 4096 + hex_val(s[i + 9]) * 256 + hex_val(
                            s[i + 10],
                        ) * 16 + hex_val(s[i + 11]);
                        if 0xdc00 <= lo < 0xe000 {
                            match spec_parse_str_chars(s, i + 12) {
                                Some((rest, end)) => Some(
                                    (spec_utf8_enc(spec_pair_scalar(code, lo)) + rest, end),
                                ),
                                None => None,
                            }
                        } else {
                            None
                        }
                    } else {
                        None
                    }
                } else if 0xdc00 <= code < 0xe000 {
                    None
                } else {
                    match spec_parse_str_chars(s, i + 6) {
                        Some((rest, end)) => Some((spec_utf8_enc(code) + rest, end)),
                        None => None,
                    }
                }
            } else {
                None
            }
        } else {
            None
        }
    } else if s[i] < 32 {
        None
    } else {
        match spec_parse_str_chars(s, i + 1) {
            Some((rest, end)) => Some((seq![s[i]] + rest, end)),
            None => None,
        }
    }
}

/// The position just after a fraction part standing at `p`: past the dot
/// and its digits when a well-formed fraction starts there, `p` itself
/// when none does, and `None` for a dot with no digit.
pub open spec fn spec_frac_end(s: Seq<u8>, p: int) -> Option<int> {
    if 0 <= p < s.len() && s[p] == 46 {
        if p + 1 < s.len() && is_digit(s[p + 1]) {
            Some(spec_digits_end(s, p + 1))
        } else {
            None
        }
    } else {
        Some(p)
    }
}

/// The position just after an exponent part standing at `p`, in the same
/// manner as `spec_frac_end`.
pub open spec fn spec_exp_end(s: Seq<u8>, p: int) -> Option<int> {
    if 0 <= p < s.len() && (s[p] == 101 || s[p] == 69) {
        let q = if p + 1 < s.len() && (s[p + 1] == 43 || s[p + 1] == 45) {
            p + 2
        } else {
            p + 1
        };
        if q < s.len() && is_digit(s[q]) {
            Some(spec_digits_end(s, q))
        } else {
            None
        }
    } else {
        Some(p)
    }
}

/// A number starting at `i`: an optional minus sign, digits with no
/// leading zero, then an optional fraction and exponent. A plain integer
/// in `i64` range becomes `Int`; any other well-formed number keeps its
/// exact text as `Num`.
pub open spec fn spec_parse_number(s: Seq<u8>, i: int) -> Option<(JsonSpec, int)> {
    if i < 0 || i >= s.len() {
        None
    } else {
        let neg = s[i] == 45;
        let d0 = if neg {
            i + 1
        } else {
            i
        };
        if d0 >= s.len() || !is_digit(s[d0]) {
            None
        } else {
            let int_end = spec_digits_end(s, d0);
            if s[d0] == 48 && int_end > d0 + 1 {
                None
            } else {
                match spec_frac_end(s, int_end) {
                    None => None,
                    Some(fe) => match spec_exp_end(s, fe) {
                        None => None,
                        Some(ee) => if ee != int_end {
                            Some((JsonSpec::Num(s.subrange(i, ee)), ee))
                        } else {
                            let v = digits_val(s.subrange(d0, int_end));
                            if neg {
                                if -v >= i64::MIN {
                                    Some((JsonSpec::Int(-v), int_end))
                                } else {
                                    Some((JsonSpec::Num(s.subrange(i, int_end)), int_end))
                                }
                            } else {
                                if v <= i64::MAX {
                                    Some((JsonSpec::Int(v), int_end))
                                } else {
                                    Some((JsonSpec::Num(s.subrange(i, int_end)), int_end))
                                }
                            }
                        },
                    },
                }
            }
        }
    }
}

/// A value starting exactly at `i`, and the position just after it.
pub open spec fn spec_parse_value(s: Seq<u8>, i: int) -> Option<(JsonSpec, int)>
    decreases s.len() - i, 1int,
{
    if i < 0 || i >= s.len() {
        None
    } else if s[i] == 110 {
        if i + 4 <= s.len() && s[i + 1] == 117 && s[i + 2] == 108 && s[i + 3] == 108 {
            Some((JsonSpec::Null, i + 4))
        } else {
            None
        }
    } else if s[i] == 116 {
        if i + 4 <= s.len() && s[i + 1] == 114 && s[i + 2] == 117 && s[i + 3] == 101 {
            Some((JsonSpec::Bool(true), i + 4))
        } else {
            None
        }
    } else if s[i] == 102 {
        if i + 5 <= s.len() && s[i + 1] == 97 && s[i + 2] == 108 && s[i + 3] == 115 && s[i + 4]
            == 101 {
            Some((JsonSpec::Bool(false), i + 5))
        } else {
            None
        }
    } else if s[i] == 34 {
        match spec_parse_str_chars(s, i + 1) {
            Some((c, e)) => Some((JsonSpec::Str(c), e)),
            None => None,
        }
    } else if s[i] == 45 || is_digit(s[i]) {
        spec_parse_number(s, i)
    } else if s[i] == 91 {
        let j = spec_skip_ws(s, i + 1);
        if !(i + 1 <= j <= s.len()) {
            None
        } else if j < s.len() && s[j] == 93 {
            Some((JsonSpec::Arr(Seq::empty()), j + 1))
        } else {
            match spec_parse_items(s, i + 1) {
                Some((items, e)) => Some((JsonSpec::Arr(items), e)),
                None => None,
            }
        }
    } else if s[i] == 123 {
        let j = spec_skip_ws(s, i + 1);
        if !(i + 1 <= j <= s.len()) {
            None
        } else if j < s.len() && s[j] == 125 {
            Some((JsonSpec::Obj(Seq::empty()), j + 1))
        } else {
            match spec_parse_members(s, i + 1) {
                Some((fields, e)) => Some((JsonSpec::Obj(fields), e)),
                None => None,
            }
        }
    } else {
        None
    }
}

/// The elements of an array from `i` (just after `[` or a comma) to the
/// closing bracket, and the position just after it.
pub open spec fn spec_parse_items(s: Seq<u8>, i: int) -> Option<(Seq<JsonSpec>, int)>
    decreases s.len() - i, 2int,
{
    if !(0 <= i <= s.len()) {
        None
    } else {
        let j = spec_skip_ws(s, i);
        if !(i <= j <= s.len()) {
            None
        } else {
            match spec_parse_value(s, j) {
                None => None,
                Some((v, k)) => if !(j < k <= s.len()) {
                    None
                } else {
                    let m = spec_skip_ws(s, k);
                    if !(k <= m <= s.len()) {
                        None
                    } else if m < s.len() && s[m] == 44 {
                        match spec_parse_items(s, m + 1) {
                            Some((rest, e)) => Some((seq![v] + rest, e)),
                            None => None,
                        }
                    } else if m < s.len() && s[m] == 93 {
                        Some((seq![v], m + 1))
                    } else {
                        None
                    }
                },
            }
        }
    }
}

/// The members of an object from `i` (just after `{` or a comma) to the
/// closing brace, and the position just after it.
pub open spec fn spec_parse_members(s: Seq<u8>, i: int) -> Option<
    (Seq<(Seq<u8>, JsonSpec)>, int),
>
    decreases s.len() - i, 2int,
{
    if !(0 <= i <= s.len()) {
        None
    } else {
        let j = spec_skip_ws(s, i);
        if !(i <= j <= s.len()) {
            None
        } else if j >= s.len() || s[j] != 34 {
            None
        } else {
            match spec_parse_str_chars(s, j + 1) {
                None => None,
                Some((key, k)) => if !(j < k <= s.len()) {
                    None
                } else {
                    let m = spec_skip_ws(s, k);
                    if !(k <= m <= s.len()) {
                        None
                    } else if m >= s.len() || s[m] != 58 {
                        None
                    } else {
                        let p = spec_skip_ws(s, m + 1);
                        if !(m + 1 <= p <= s.len()) {
                            None
                        } else {
                            match spec_parse_value(s, p) {
                                None => None,
                                Some((v, q)) => if !(p < q <= s.len()) {
                                    None
                                } else {
                                    let w = spec_skip_ws(s, q);
                                    if !(q <= w <= s.len()) {
                                        None
                                    } else if w < s.len() && s[w] == 44 {
                                        match spec_parse_members(s, w + 1) {
                                            Some((rest, e)) => Some((seq![(key, v)] + rest, e)),
                                            None => None,
                                        }
                                    } else if w < s.len() && s[w] == 125 {
                                        Some((seq![(key, v)], w + 1))
                                    } else {
                                        None
                                    }
                                },
                            }
                        }
                    }
                },
            }
        }
    }
}

/// The document a byte string denotes: optional whitespace, one value,
/// optional whitespace, end of input.
pub open spec fn spec_parse_json(s: Seq<u8>) -> Option<JsonSpec> {
    let i = spec_skip_ws(s, 0);
    if !(0 <= i <= s.len()) {
        None
    } else {
        match spec_parse_value(s, i) {
            None => None,
            Some((v, j)) => if !(i < j <= s.len()) {
                None
            } else if spec_skip_ws(s, j) == s.len() {
                Some(v)
            } else {
                None
            },
        }
    }
}

/// Advances past whitespace, exactly as `spec_skip_ws` states.
#[verifier::loop_isolation(false)]
fn skip_ws(s: &Vec<u8>, i: usize) -> (j: usize)
    requires
        i <= s@.len(),
    ensures
        j == spec_skip_ws(s@, i as int),
        i <= j <= s@.len(),
{
    let mut j = i;
    while j < s.len() && (s[j] == 32 || s[j] == 9 || s[j] == 10 || s[j] == 13)
        invariant
            i <= j <= s@.len(),
            spec_skip_ws(s@, i as int) == spec_skip_ws(s@, j as int),
        decreases s@.len() - j,
    {
        j += 1;
    }
    j
}

/// The byte a simple escape denotes, exactly as `spec_simple_escape`
/// states.
fn simple_escape(b: u8) -> (r: Option<u8>)
    ensures
        r == spec_simple_escape(b),
{
    if b == 34 {
        Some(34)
    } else if b == 92 {
        Some(92)
    } else if b == 47 {
        Some(47)
    } else if b == 98 {
        Some(8)
    } else if b == 102 {
        Some(12)
    } else if b == 110 {
        Some(10)
    } else if b == 114 {
        Some(13)
    } else if b == 116 {
        Some(9)
    } else {
        None
    }
}

/// Parses a string whose opening quote stands at `i`, exactly as
/// `spec_parse_str_chars` states.
#[verifier::loop_isolation(false)]
#[verifier::rlimit(60)]
fn parse_string(s: &Vec<u8>, i: usize) -> (r: Option<(Vec<u8>, usize)>)
    requires
        i < s@.len(),
        s@[i as int] == 34,
    ensures
        match r {
            Some(p) => spec_parse_str_chars(s@, i + 1) == Some((p.0@, p.1 as int)) && i < p.1
                <= s@.len(),
            None => spec_parse_str_chars(s@, i + 1) is None,
        },
{
    let n = s.len();
    let mut out: Vec<u8> = Vec::new();
    let mut cur = i + 1;
    while cur < n
        invariant
            i + 1 <= cur <= n,
            match spec_parse_str_chars(s@, cur as int) {
                Some(p) => spec_parse_str_chars(s@, i + 1) == Some((out@ + p.0, p.1)),
                None => spec_parse_str_chars(s@, i + 1) is None,
            },
        decreases n - cur,
    {
        let ghost at = cur as int;
        let b = s[cur];
        if b == 34 {
            proof {
                assert(out@ + Seq::<u8>::empty() =~= out@);
            }
            return Some((out, cur + 1));
        } else if b == 92 {
            if n - cur < 2 {
                return None;
            }
            let e = s[cur + 1];
            match simple_escape(e) {
                Some(m) => {
                    let ghost out0 = out@;
                    out.push(m);
                    cur = cur + 2;
                    proof {
                        let sp = spec_parse_str_chars(s@, cur as int);
                        if sp is Some {
                            assert(out0 + (seq![m] + sp->Some_0.0) =~= out@ + sp->Some_0.0);
                        }
                    }
                },
                None => {
                    if e == 117 {
                        if n - cur < 6 {
                            return None;
                        }
                        let h1 = match hex_digit_value(s[cur + 2]) {
                            Some(v) => v,
                            None => {
                                return None;
                            },
                        };
                        let h2 = match hex_digit_value(s[cur + 3]) {
                            Some(v) => v,
                            None => {
                                return None;
                            },
                        };
                        let h3 = match hex_digit_value(s[cur + 4]) {
                            Some(v) => v,
                            None => {
                                return None;
                            },
                        };
                        let h4 = match hex_digit_value(s[cur + 5]) {
                            Some(v) => v,
                            None => {
                                return None;
                            },
                        };
                        let code: u32 = (h1 as u32) * 4096 + (h2 as u32) * 256 + (h3 as u32) * 16
                            + (h4 as u32);
                        if code >= 0xd800 && code < 0xdc00 {
                            // A high surrogate must pair with a low one.
                            if n - cur < 12 {
                                return None;
                            }
                            if !(s[cur + 6] == 92 && s[cur + 7] == 117) {
                                return None;
                            }
                            let l1 = match hex_digit_value(s[cur + 8]) {
                                Some(v) => v,
                                None => {
                                    return None;
                                },
                            };
                            let l2 = match hex_digit_value(s[cur + 9]) {
                                Some(v) => v,
                                None => {
                                    return None;
                                },
                            };
                            let l3 = match hex_digit_value(s[cur + 10]) {
                                Some(v) => v,
                                None => {
                                    return None;
                                },
                            };
                            let l4 = match hex_digit_value(s[cur + 11]) {
                                Some(v) => v,
                                None => {
                                    return None;
                                },
                            };
                            let lo: u32 = (l1 as u32) * 4096 + (l2 as u32) * 256 + (l3 as u32)
                                * 16 + (l4 as u32);
                            if !(lo >= 0xdc00 && lo < 0xe000) {
                                return None;
                            }
                            let scalar: u32 = 0x10000 + (code - 0xd800) * 0x400 + (lo - 0xdc00);
                            let ghost out0 = out@;
                            out.push(240 + (scalar / 262144) as u8);
                            out.push(128 + ((scalar / 4096) % 64) as u8);
                            out.push(128 + ((scalar / 64) % 64) as u8);
                            out.push(128 + (scalar % 64) as u8);
                            cur = cur + 12;
                            proof {
                                assert(out@ =~= out0 + spec_utf8_enc(scalar as int));
                                let sp = spec_parse_str_chars(s@, cur as int);
                                if sp is Some {
                                    assert(out0 + (spec_utf8_enc(scalar as int) + sp->Some_0.0)
                                        =~= out@ + sp->Some_0.0);
                                }
                            }
                        } else if code >= 0xdc00 && code < 0xe000 {
                            return None;
                        } else {
                            let ghost out0 = out@;
                            if code < 0x80 {
                                out.push(code as u8);
                            } else if code < 0x800 {
                                out.push(192 + (code / 64) as u8);
                                out.push(128 + (code % 64) as u8);
                            } else {
                                out.push(224 + (code / 4096) as u8);
                                out.push(128 + ((code / 64) % 64) as u8);
                                out.push(128 + (code % 64) as u8);
                            }
                            cur = cur + 6;
                            proof {
                                assert(out@ =~= out0 + spec_utf8_enc(code as int));
                                let sp = spec_parse_str_chars(s@, cur as int);
                                if sp is Some {
                                    assert(out0 + (spec_utf8_enc(code as int) + sp->Some_0.0)
                                        =~= out@ + sp->Some_0.0);
                                }
                            }
                        }
                    } else {
                        return None;
                    }
                },
            }
        } else if b < 32 {
            return None;
        } else {
            let ghost out0 = out@;
            out.push(b);
            cur = cur + 1;
            proof {
                let sp = spec_parse_str_chars(s@, cur as int);
                if sp is Some {
                    assert(out0 + (seq![s@[at]] + sp->Some_0.0) =~= out@ + sp->Some_0.0);
                }
            }
        }
    }
    None
}

/// The first position at or after `from` that holds no decimal digit,
/// exactly as `spec_digits_end` states.
#[verifier::loop_isolation(false)]
fn digits_end(s: &Vec<u8>, from: usize) -> (e: usize)
    requires
        from <= s@.len(),
    ensures
        e == spec_digits_end(s@, from as int),
        from <= e <= s@.len(),
        forall|k: int| from <= k < e ==> is_digit(#[trigger] s@[k]),
        from < s@.len() && is_digit(s@[from as int]) ==> e > from,
{
    let mut e = from;
    while e < s.len() && s[e] >= 48 && s[e] <= 57
        invariant
            from <= e <= s@.len(),
            spec_digits_end(s@, from as int) == spec_digits_end(s@, e as int),
            forall|k: int| from <= k < e ==> is_digit(#[trigger] s@[k]),
        decreases s@.len() - e,
    {
        e += 1;
    }
    e
}

/// Parses a number starting at `i`, exactly as `spec_parse_number`
/// states.
#[verifier::loop_isolation(false)]
fn parse_number(s: &Vec<u8>, i: usize) -> (r: Option<(JsonValue, usize)>)
    requires
        i < s@.len(),
    ensures
        match r {
            Some(p) => spec_parse_number(s@, i as int) == Some((p.0@, p.1 as int)) && i < p.1
                <= s@.len(),
            None => spec_parse_number(s@, i as int) is None,
        },
{
    let n = s.len();
    let neg = s[i] == 45;
    let d0 = if neg {
        i + 1
    } else {
        i
    };
    if d0 >= n || !(s[d0] >= 48 && s[d0] <= 57) {
        return None;
    }
    let int_end = digits_end(s, d0);
    if s[d0] == 48 && int_end > d0 + 1 {
        return None;
    }
    let fe: usize;
    if int_end < n && s[int_end] == 46 {
        if int_end + 1 < n && s[int_end + 1] >= 48 && s[int_end + 1] <= 57 {
            fe = digits_end(s, int_end + 1);
        } else {
            return None;
        }
    } else {
        fe = int_end;
    }
    let ee: usize;
    if fe < n && (s[fe] == 101 || s[fe] == 69) {
        let q = if fe + 1 < n && (s[fe + 1] == 43 || s[fe + 1] == 45) {
            fe + 2
        } else {
            fe + 1
        };
        if q < n && s[q] >= 48 && s[q] <= 57 {
            ee = digits_end(s, q);
        } else {
            return None;
        }
    } else {
        ee = fe;
    }
    if ee != int_end {
        return Some((JsonValue::Num(crate::bytesutil::copy_range(s, i, ee)), ee));
    }
    let ghost ds = s@.subrange(d0 as int, int_end as int);
    proof {
        assert(crate::numeric::all_digits(ds)) by {
            assert(forall|k: int| 0 <= k < ds.len() ==> ds[k] == #[trigger] s@[k + d0]);
        }
    }
    if int_end - d0 > 19 {
        // More than nineteen significant digits: out of i64 range either way.
        proof {
            assert(ds[0] == s@[d0 as int]);
            lemma_digits_val_lower(ds);
            lemma_pow10_19();
            lemma_pow10_mono(19, (ds.len() - 1) as nat);
        }
        return Some((JsonValue::Num(crate::bytesutil::copy_range(s, i, int_end)), int_end));
    }
    let mut acc: u64 = 0;
    let mut k = d0;
    while k < int_end
        invariant
            d0 <= k <= int_end <= n,
            int_end - d0 <= 19,
            ds == s@.subrange(d0 as int, int_end as int),
            crate::numeric::all_digits(ds),
            forall|q: int| d0 <= q < int_end ==> is_digit(#[trigger] s@[q]),
            acc == digits_val(s@.subrange(d0 as int, k as int)),
        decreases int_end - k,
    {
        let ghost pre = s@.subrange(d0 as int, k as int);
        proof {
            assert(crate::numeric::all_digits(pre)) by {
                assert(forall|q: int| 0 <= q < pre.len() ==> pre[q] == #[trigger] s@[q + d0]);
            }
            lemma_digits_val_bounds(pre);
            lemma_pow10_mono((k - d0) as nat, 18);
            lemma_pow10_19();
            assert(pow10(18) * 10 == pow10(19));
        }
        let d = s[k] - 48;
        acc = acc * 10 + (d as u64);
        proof {
            let post = s@.subrange(d0 as int, k + 1);
            assert(post.drop_last() =~= pre);
            assert(post.last() == s@[k as int]);
        }
        k += 1;
    }
    assert(acc == digits_val(ds)) by {
        assert(s@.subrange(d0 as int, int_end as int) =~= ds);
    }
    if neg {
        if acc <= 9223372036854775808u64 {
            if acc == 9223372036854775808u64 {
                Some((JsonValue::Int(i64::MIN), int_end))
            } else {
                Some((JsonValue::Int(-(acc as i64)), int_end))
            }
        } else {
            Some((JsonValue::Num(crate::bytesutil::copy_range(s, i, int_end)), int_end))
        }
    } else {
        if acc <= i64::MAX as u64 {
            Some((JsonValue::Int(acc as i64), int_end))
        } else {
            Some((JsonValue::Num(crate::bytesutil::copy_range(s, i, int_end)), int_end))
        }
    }
}

/// Parses one value starting exactly at `i`, exactly as
/// `spec_parse_value` states.
pub fn parse_value(s: &Vec<u8>, i: usize) -> (r: Option<(JsonValue, usize)>)
    requires
        i <= s@.len(),
    ensures
        match r {
            Some(p) => spec_parse_value(s@, i as int) == Some((p.0@, p.1 as int)) && i < p.1
                <= s@.len(),
            None => spec_parse_value(s@, i as int) is None,
        },
    decreases s@.len() - i, 1int,
{
    let n = s.len();
    if i >= n {
        return None;
    }
    let b = s[i];
    if b == 110 {
        if n - i >= 4 && s[i + 1] == 117 && s[i + 2] == 108 && s[i + 3] == 108 {
            Some((JsonValue::Null, i + 4))
        } else {
            None
        }
    } else if b == 116 {
        if n - i >= 4 && s[i + 1] == 114 && s[i + 2] == 117 && s[i + 3] == 101 {
            Some((JsonValue::Bool(true), i + 4))
        } else {
            None
        }
    } else if b == 102 {
        if n - i >= 5 && s[i + 1] == 97 && s[i + 2] == 108 && s[i + 3] == 115 && s[i + 4] == 101 {
            Some((JsonValue::Bool(false), i + 5))
        } else {
            None
        }
    } else if b == 34 {
        match parse_string(s, i) {
            Some((c, e)) => Some((JsonValue::Str(c), e)),
            None => None,
        }
    } else if b == 45 || (b >= 48 && b <= 57) {
        parse_number(s, i)
    } else if b == 91 {
        let j = skip_ws(s, i + 1);
        if j < n && s[j] == 93 {
            let items: Vec<JsonValue> = Vec::new();
            proof {
                assert(jspec_list(items@) =~= Seq::<JsonSpec>::empty());
            }
            Some((JsonValue::Arr(items), j + 1))
        } else {
            match parse_items(s, i + 1) {
                Some((items, e)) => Some((JsonValue::Arr(items), e)),
                None => None,
            }
        }
    } else if b == 123 {
        let j = skip_ws(s, i + 1);
        if j < n && s[j] == 125 {
            let fields: Vec<(Vec<u8>, JsonValue)> = Vec::new();
            proof {
                assert(jspec_fields(fields@) =~= Seq::<(Seq<u8>, JsonSpec)>::empty());
            }
            Some((JsonValue::Obj(fields), j + 1))
        } else {
            match parse_members(s, i + 1) {
                Some((fields, e)) => Some((JsonValue::Obj(fields), e)),
                None => None,
            }
        }
    } else {
        None
    }
}

/// Parses the elements of an array from `i` to the closing bracket,
/// exactly as `spec_parse_items` states.
fn parse_items(s: &Vec<u8>, i: usize) -> (r: Option<(Vec<JsonValue>, usize)>)
    requires
        i <= s@.len(),
    ensures
        match r {
            Some(p) => spec_parse_items(s@, i as int) == Some((jspec_list(p.0@), p.1 as int)) && i
                < p.1 <= s@.len(),
            None => spec_parse_items(s@, i as int) is None,
        },
    decreases s@.len() - i, 2int,
{
    let n = s.len();
    let j = skip_ws(s, i);
    let (v, k) = match parse_value(s, j) {
        Some(p) => p,
        None => {
            return None;
        },
    };
    let m = skip_ws(s, k);
    if m < n && s[m] == 44 {
        match parse_items(s, m + 1) {
            Some((mut rest, e)) => {
                let ghost rest0 = rest@;
                rest.insert(0, v);
                proof {
                    crate::json::lemma_jspec_list(rest0);
                    crate::json::lemma_jspec_list(rest@);
                    assert(jspec_list(rest@) =~= seq![v@] + jspec_list(rest0));
                }
                Some((rest, e))
            },
            None => None,
        }
    } else if m < n && s[m] == 93 {
        let mut items: Vec<JsonValue> = Vec::new();
        items.push(v);
        proof {
            crate::json::lemma_jspec_list(items@);
            assert(jspec_list(items@) =~= seq![v@]);
        }
        Some((items, m + 1))
    } else {
        None
    }
}

/// Parses the members of an object from `i` to the closing brace,
/// exactly as `spec_parse_members` states.
fn parse_members(s: &Vec<u8>, i: usize) -> (r: Option<(Vec<(Vec<u8>, JsonValue)>, usize)>)
    requires
        i <= s@.len(),
    ensures
        match r {
            Some(p) => spec_parse_members(s@, i as int) == Some((jspec_fields(p.0@), p.1 as int))
                && i < p.1 <= s@.len(),
            None => spec_parse_members(s@, i as int) is None,
        },
    decreases s@.len() - i, 2int,
{
    let n = s.len();
    let j = skip_ws(s, i);
    if j >= n || s[j] != 34 {
        return None;
    }
    let (key, k) = match parse_string(s, j) {
        Some(p) => p,
        None => {
            return None;
        },
    };
    let m = skip_ws(s, k);
    if m >= n || s[m] != 58 {
        return None;
    }
    let p = skip_ws(s, m + 1);
    let (v, q) = match parse_value(s, p) {
        Some(pr) => pr,
        None => {
            return None;
        },
    };
    let w = skip_ws(s, q);
    if w < n && s[w] == 44 {
        match parse_members(s, w + 1) {
            Some((mut rest, e)) => {
                let ghost rest0 = rest@;
                rest.insert(0, (key, v));
                proof {
                    crate::json::lemma_jspec_fields(rest0);
                    crate::json::lemma_jspec_fields(rest@);
                    assert(jspec_fields(rest@) =~= seq![(key@, v@)] + jspec_fields(rest0));
                }
                Some((rest, e))
            },
            None => None,
        }
    } else if w < n && s[w] == 125 {
        let mut fields: Vec<(Vec<u8>, JsonValue)> = Vec::new();
        fields.push((key, v));
        proof {
            crate::json::lemma_jspec_fields(fields@);
            assert(jspec_fields(fields@) =~= seq![(key@, v@)]);
        }
        Some((fields, w + 1))
    } else {
        None
    }
}

/// Parses a whole document, exactly as `spec_parse_json` states:
/// optional whitespace, one value, optional whitespace, end of input.
pub fn parse_json(s: &Vec<u8>) -> (r: Option<JsonValue>)
    ensures
        match r {
            Some(v) => spec_parse_json(s@) == Some(v@),
            None => spec_parse_json(s@) is None,
        },
{
    let i = skip_ws(s, 0);
    let (v, j) = match parse_value(s, i) {
        Some(p) => p,
        None => {
            return None;
        },
    };
    let k = skip_ws(s, j);
    if k == s.len() {
        Some(v)
    } else {
        None
    }
}

} // verus!
