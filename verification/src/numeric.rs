//! Decimal parsing and formatting over ASCII byte strings.
//!
//! The signature check parses the timestamp header as a signed number of
//! seconds, failing closed on anything that is not a decimal integer in
//! `i64` range. The publish envelope formats the interaction type back
//! into its decimal text.

use vstd::prelude::*;

verus! {

/// ASCII code of the digit zero.
pub const DIGIT_ZERO: u8 = 48;

pub open spec fn is_digit(b: u8) -> bool {
    48 <= b <= 57
}

pub open spec fn all_digits(s: Seq<u8>) -> bool {
    forall|i: int| 0 <= i < s.len() ==> is_digit(#[trigger] s[i])
}

/// The numeric value of a digit string, most significant digit first.
pub open spec fn digits_val(s: Seq<u8>) -> int
    decreases s.len(),
{
    if s.len() == 0 {
        0
    } else {
        digits_val(s.drop_last()) * 10 + (s.last() - 48)
    }
}

pub open spec fn pow10(n: nat) -> int
    decreases n,
{
    if n == 0 {
        1
    } else {
        10 * pow10((n - 1) as nat)
    }
}

/// The value of a well-formed signed decimal string, `None` when the text
/// is not `['-' | '+'] digit+` or its value falls outside `i64`.
pub open spec fn spec_parse_i64(s: Seq<u8>) -> Option<i64> {
    if s.len() > 0 && (s[0] == 45 || s[0] == 43) {
        spec_parse_signed(s[0] == 45, s.drop_first())
    } else {
        spec_parse_signed(false, s)
    }
}

pub open spec fn spec_parse_signed(neg: bool, ds: Seq<u8>) -> Option<i64> {
    if ds.len() == 0 || !all_digits(ds) {
        None
    } else {
        let v = digits_val(ds);
        if neg {
            if -v >= i64::MIN {
                Some((-v) as i64)
            } else {
                None
            }
        } else {
            if v <= i64::MAX {
                Some(v as i64)
            } else {
                None
            }
        }
    }
}

pub proof fn lemma_digits_val_bounds(s: Seq<u8>)
    requires
        all_digits(s),
    ensures
        0 <= digits_val(s),
        digits_val(s) < pow10(s.len()),
    decreases s.len(),
{
    if s.len() > 0 {
        assert(all_digits(s.drop_last())) by {
            assert(forall|i: int|
                0 <= i < s.len() - 1 ==> s.drop_last()[i] == #[trigger] s[i]);
        }
        lemma_digits_val_bounds(s.drop_last());
    }
}

pub proof fn lemma_digits_val_lower(s: Seq<u8>)
    requires
        all_digits(s),
        s.len() > 0,
        s[0] != 48,
    ensures
        digits_val(s) >= pow10((s.len() - 1) as nat),
    decreases s.len(),
{
    if s.len() == 1 {
        assert(digits_val(s) == digits_val(s.drop_last()) * 10 + (s.last() - 48));
        assert(digits_val(s.drop_last()) == 0);
    } else {
        assert(all_digits(s.drop_last())) by {
            assert(forall|i: int|
                0 <= i < s.len() - 1 ==> s.drop_last()[i] == #[trigger] s[i]);
        }
        lemma_digits_val_lower(s.drop_last());
        assert(s.last() - 48 >= 0);
    }
}

/// Dropping a leading zero does not change the value.
pub proof fn lemma_drop_leading_zero(s: Seq<u8>)
    requires
        s.len() > 0,
        s[0] == 48,
    ensures
        digits_val(s) == digits_val(s.drop_first()),
    decreases s.len(),
{
    if s.len() == 1 {
        assert(digits_val(s) == digits_val(s.drop_last()) * 10 + (s.last() - 48));
    } else {
        let t = s.drop_last();
        assert(t[0] == 48);
        lemma_drop_leading_zero(t);
        assert(t.drop_first() =~= s.drop_first().drop_last());
        assert(digits_val(s.drop_first())
            == digits_val(s.drop_first().drop_last()) * 10 + (s.drop_first().last() - 48));
        assert(s.drop_first().last() == s.last());
    }
}

/// Parses a signed decimal integer, exactly as `spec_parse_i64` states.
#[verifier::loop_isolation(false)]
pub fn parse_i64(s: &Vec<u8>) -> (r: Option<i64>)
    ensures
        r == spec_parse_i64(s@),
{
    let n = s.len();
    let mut i: usize = 0;
    let mut neg = false;
    if n > 0 && (s[0] == 45 || s[0] == 43) {
        neg = s[0] == 45;
        i = 1;
    }
    let ghost ds = s@.subrange(i as int, n as int);
    assert(spec_parse_i64(s@) == spec_parse_signed(neg, ds)) by {
        if i == 1 {
            assert(ds =~= s@.drop_first());
        } else {
            assert(ds =~= s@);
        }
    }
    if i == n {
        return None;
    }
    // Every remaining byte must be a digit.
    let mut j = i;
    while j < n
        invariant
            i <= j <= n,
            n == s@.len(),
            forall|k: int| i <= k < j ==> is_digit(#[trigger] s@[k]),
        decreases n - j,
    {
        if !(s[j] >= 48 && s[j] <= 57) {
            assert(!all_digits(ds)) by {
                assert(ds[j - i] == s@[j as int]);
            }
            return None;
        }
        j += 1;
    }
    assert(all_digits(ds)) by {
        assert(forall|k: int| 0 <= k < ds.len() ==> ds[k] == #[trigger] s@[k + i]);
    }
    // Skip leading zeros; they do not change the value.
    while i < n && s[i] == 48
        invariant
            i <= n,
            n == s@.len(),
            all_digits(s@.subrange(i as int, n as int)),
            digits_val(s@.subrange(i as int, n as int)) == digits_val(ds),
        decreases n - i,
    {
        let ghost cur = s@.subrange(i as int, n as int);
        proof {
            lemma_drop_leading_zero(cur);
            assert(cur.drop_first() =~= s@.subrange(i + 1, n as int));
        }
        i += 1;
    }
    let ghost stripped = s@.subrange(i as int, n as int);
    if n - i > 19 {
        // At least twenty significant digits: the value exceeds i64 range.
        proof {
            lemma_digits_val_lower(stripped);
            lemma_pow10_19();
            lemma_pow10_mono(19, (stripped.len() - 1) as nat);
        }
        return None;
    }
    // Accumulate; at most nineteen digits always fit in a u64.
    let mut acc: u64 = 0;
    let mut k = i;
    while k < n
        invariant
            i <= k <= n,
            n == s@.len(),
            n - i <= 19,
            stripped == s@.subrange(i as int, n as int),
            all_digits(stripped),
            acc == digits_val(s@.subrange(i as int, k as int)),
        decreases n - k,
    {
        let ghost pre = s@.subrange(i as int, k as int);
        proof {
            assert(all_digits(pre)) by {
                assert(forall|q: int| 0 <= q < pre.len() ==> pre[q] == #[trigger] stripped[q]);
            }
            lemma_digits_val_bounds(pre);
            lemma_pow10_mono((k - i) as nat, 18);
            lemma_pow10_19();
            assert(pow10(18) * 10 == pow10(19));
        }
        assert(is_digit(s@[k as int])) by {
            assert(stripped[k - i] == s@[k as int]);
        }
        let d = s[k] - 48;
        acc = acc * 10 + (d as u64);
        proof {
            let post = s@.subrange(i as int, k + 1);
            assert(post.drop_last() =~= pre);
            assert(post.last() == s@[k as int]);
        }
        k += 1;
    }
    assert(acc == digits_val(stripped)) by {
        assert(s@.subrange(i as int, n as int) =~= stripped);
    }
    assert(digits_val(ds) == acc as int);
    if neg {
        if acc <= 9223372036854775808u64 {
            if acc == 9223372036854775808u64 {
                Some(i64::MIN)
            } else {
                Some(-(acc as i64))
            }
        } else {
            None
        }
    } else {
        if acc <= i64::MAX as u64 {
            Some(acc as i64)
        } else {
            None
        }
    }
}

pub proof fn lemma_pow10_19()
    ensures
        pow10(19) == 10000000000000000000,
        pow10(18) == 1000000000000000000,
{
    reveal_with_fuel(pow10, 20);
}

pub proof fn lemma_pow10_mono(a: nat, b: nat)
    requires
        a <= b,
    ensures
        pow10(a) <= pow10(b),
        pow10(a) >= 1,
    decreases b,
{
    if a < b {
        lemma_pow10_mono(a, (b - 1) as nat);
    } else if b > 0 {
        lemma_pow10_mono((a - 1) as nat, (b - 1) as nat);
        assert(pow10(b) == 10 * pow10((b - 1) as nat));
    }
}

/// Decimal text of a non-negative value, most significant digit first.
pub open spec fn spec_u64_dec(n: int) -> Seq<u8>
    decreases n,
{
    if n < 10 {
        seq![(48 + n) as u8]
    } else {
        spec_u64_dec(n / 10).push((48 + n % 10) as u8)
    }
}

/// Decimal text of a signed value: a minus sign and then the magnitude.
pub open spec fn spec_i64_dec(n: int) -> Seq<u8> {
    if n < 0 {
        seq![45u8] + spec_u64_dec(-n)
    } else {
        spec_u64_dec(n)
    }
}

pub fn u64_dec(n: u64) -> (r: Vec<u8>)
    ensures
        r@ == spec_u64_dec(n as int),
    decreases n,
{
    if n < 10 {
        let mut v: Vec<u8> = Vec::new();
        v.push(48 + n as u8);
        assert(v@ =~= spec_u64_dec(n as int));
        v
    } else {
        let mut v = u64_dec(n / 10);
        v.push(48 + (n % 10) as u8);
        assert(v@ =~= spec_u64_dec(n as int));
        v
    }
}

/// Formats a signed value in decimal, exactly as `spec_i64_dec` states.
pub fn i64_dec(n: i64) -> (r: Vec<u8>)
    ensures
        r@ == spec_i64_dec(n as int),
{
    if n >= 0 {
        u64_dec(n as u64)
    } else {
        let mag: u64 = ((-(n + 1)) as u64) + 1;
        assert(mag as int == -(n as int));
        let mut v: Vec<u8> = Vec::new();
        v.push(45);
        let mut tail = u64_dec(mag);
        v.append(&mut tail);
        assert(v@ =~= spec_i64_dec(n as int));
        v
    }
}

} // verus!
