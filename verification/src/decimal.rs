//! Decimal rendering and parsing of unsigned 64-bit values, used for the
//! numeric fields of the credential payload.

use vstd::prelude::*;
use vstd::arithmetic::div_mod::lemma_fundamental_div_mod;
use crate::validate::is_digit;

verus! {

/// Ten to the `k`.
pub open spec fn pow10(k: nat) -> nat
    decreases k,
{
    if k == 0 {
        1
    } else {
        10 * pow10((k - 1) as nat)
    }
}

/// The decimal digits of `n`, most significant first, no leading zeros
/// (`0` renders as the single digit `0`).
pub open spec fn spec_dec(n: u64) -> Seq<u8>
    decreases n,
{
    if n < 10 {
        seq![(48 + n) as u8]
    } else {
        spec_dec(n / 10) + seq![(48 + n % 10) as u8]
    }
}

/// The value of a digit string, most significant first.
pub open spec fn digits_val(ds: Seq<u8>) -> nat
    decreases ds.len(),
{
    if ds.len() == 0 {
        0
    } else {
        (digits_val(ds.drop_last()) * 10 + (ds.last() - 48)) as nat
    }
}

/// The first position at or after `pos` that does not hold a digit.
pub open spec fn digits_end(s: Seq<u8>, pos: int) -> int
    decreases s.len() - pos,
{
    if pos < 0 || pos >= s.len() || !is_digit(s[pos]) {
        pos
    } else {
        digits_end(s, pos + 1)
    }
}

/// Parses a decimal number at `pos`: a non-empty digit run of at most 19
/// digits with no leading zero, valued below `10^19` (so it fits in `u64`).
/// Returns the value and the position after the digits.
pub open spec fn spec_parse_u64(s: Seq<u8>, pos: int) -> Option<(u64, int)> {
    let end = digits_end(s, pos);
    if end == pos || end - pos > 19 {
        None
    } else if s[pos] == 48 && end - pos > 1 {
        None
    } else {
        Some((digits_val(s.subrange(pos, end)) as u64, end))
    }
}

pub proof fn lemma_pow10_mono(a: nat, b: nat)
    requires
        a <= b,
    ensures
        pow10(a) <= pow10(b),
    decreases b,
{
    if a < b {
        lemma_pow10_mono(a, (b - 1) as nat);
    }
}

/// A digit string's value is below ten to its length.
pub proof fn lemma_digits_val_bound(ds: Seq<u8>)
    requires
        forall|i: int| 0 <= i < ds.len() ==> is_digit(#[trigger] ds[i]),
    ensures
        digits_val(ds) < pow10(ds.len()),
    decreases ds.len(),
{
    if ds.len() > 0 {
        lemma_digits_val_bound(ds.drop_last());
    }
}

/// The rendering of `n` is made of digits, is non-empty, and has no leading
/// zero unless it is exactly `0`.
pub proof fn lemma_dec_digits(n: u64)
    ensures
        spec_dec(n).len() >= 1,
        forall|i: int| 0 <= i < spec_dec(n).len() ==> is_digit(#[trigger] spec_dec(n)[i]),
        n > 0 ==> spec_dec(n)[0] != 48,
        n < 10 ==> spec_dec(n).len() == 1,
    decreases n,
{
    if n >= 10 {
        lemma_dec_digits(n / 10);
        assert(n / 10 > 0);
        assert(spec_dec(n)[0] == spec_dec(n / 10)[0]);
        assert forall|i: int| 0 <= i < spec_dec(n).len() implies is_digit(
            #[trigger] spec_dec(n)[i],
        ) by {
            if i < spec_dec(n / 10).len() {
                assert(spec_dec(n)[i] == spec_dec(n / 10)[i]);
            }
        }
    }
}

/// Rendering and revaluing round-trips: the digit string of `n` values `n`.
pub proof fn lemma_dec_val(n: u64)
    ensures
        digits_val(spec_dec(n)) == n,
    decreases n,
{
    if n < 10 {
        assert(spec_dec(n) == seq![(48 + n) as u8]);
        assert(spec_dec(n).drop_last() =~= Seq::<u8>::empty());
        assert(spec_dec(n).last() == (48 + n) as u8);
        assert(digits_val(Seq::<u8>::empty()) == 0);
        assert(digits_val(spec_dec(n)) == (digits_val(spec_dec(n).drop_last()) * 10 + (spec_dec(
            n,
        ).last() - 48)) as nat);
    } else {
        lemma_dec_val(n / 10);
        assert(spec_dec(n) == spec_dec(n / 10) + seq![(48 + n % 10) as u8]);
        assert(spec_dec(n).drop_last() =~= spec_dec(n / 10));
        assert(spec_dec(n).last() == (48 + n % 10) as u8);
        assert(digits_val(spec_dec(n)) == (digits_val(spec_dec(n).drop_last()) * 10 + (spec_dec(
            n,
        ).last() - 48)) as nat);
        lemma_fundamental_div_mod(n as int, 10);
    }
}

/// A value below `10^k` renders in at most `k` digits.
pub proof fn lemma_dec_len(n: u64, k: nat)
    requires
        1 <= k,
        n < pow10(k),
    ensures
        spec_dec(n).len() <= k,
    decreases n,
{
    if n >= 10 {
        assert(k >= 2) by {
            reveal_with_fuel(pow10, 2);
            if k == 1 {
                assert(pow10(1nat) == 10);
            }
        }
        assert(n / 10 < pow10((k - 1) as nat)) by {
            lemma_fundamental_div_mod(n as int, 10);
            assert(pow10(k) == 10 * pow10((k - 1) as nat));
        }
        lemma_dec_len(n / 10, (k - 1) as nat);
    }
}

/// `digits_end` is the boundary any scan finds: all digits up to `e`, and a
/// non-digit (or the end) at `e`.
pub proof fn lemma_digits_end_char(s: Seq<u8>, pos: int, e: int)
    requires
        0 <= pos <= e <= s.len(),
        forall|i: int| pos <= i < e ==> is_digit(#[trigger] s[i]),
        e == s.len() || !is_digit(s[e]),
    ensures
        digits_end(s, pos) == e,
    decreases e - pos,
{
    if pos < e {
        lemma_digits_end_char(s, pos + 1, e);
    }
}

/// Parsing the rendering of `n` embedded at `pos` yields `n` and stops right
/// after it, provided a non-digit (or the end) follows.
pub proof fn lemma_parse_of_dec(s: Seq<u8>, pos: int, n: u64)
    requires
        n < pow10(19),
        0 <= pos,
        pos + spec_dec(n).len() <= s.len(),
        s.subrange(pos, pos + spec_dec(n).len()) == spec_dec(n),
        pos + spec_dec(n).len() == s.len() || !is_digit(s[pos + spec_dec(n).len()]),
    ensures
        spec_parse_u64(s, pos) == Some((n, pos + spec_dec(n).len())),
{
    let l = spec_dec(n).len() as int;
    lemma_dec_digits(n);
    lemma_dec_len(n, 19);
    assert forall|i: int| pos <= i < pos + l implies is_digit(#[trigger] s[i]) by {
        assert(s[i] == spec_dec(n)[i - pos]);
    }
    lemma_digits_end_char(s, pos, pos + l);
    assert(s[pos] == spec_dec(n)[0]);
    if n == 0 {
        assert(l == 1);
    }
    lemma_dec_val(n);
    assert(digits_val(s.subrange(pos, pos + l)) == n);
}

/// Appends the decimal rendering of `n`.
pub fn push_u64_dec(out: &mut Vec<u8>, n: u64)
    ensures
        final(out)@ == old(out)@ + spec_dec(n),
    decreases n,
{
    if n < 10 {
        out.push(48 + n as u8);
        proof {
            assert(out@ =~= old(out)@ + spec_dec(n));
        }
    } else {
        push_u64_dec(out, n / 10);
        out.push(48 + (n % 10) as u8);
        proof {
            assert(out@ =~= old(out)@ + spec_dec(n));
        }
    }
}

/// Parses a decimal number at `pos` exactly as `spec_parse_u64` admits.
pub fn parse_u64_dec(s: &[u8], pos: usize) -> (r: Option<(u64, usize)>)
    requires
        pos <= s@.len(),
    ensures
        match spec_parse_u64(s@, pos as int) {
            Some(v) => r matches Some(p) && p.0 == v.0 && p.1 == v.1 && pos <= p.1 <= s@.len(),
            None => r is None,
        },
{
    let n = s.len();
    // find the end of the digit run.
    let mut end: usize = pos;
    while end < n && 48 <= s[end] && s[end] <= 57
        invariant
            pos <= end <= n == s@.len(),
            forall|i: int| pos <= i < end ==> is_digit(#[trigger] s@[i]),
        decreases n - end,
    {
        end += 1;
    }
    proof {
        lemma_digits_end_char(s@, pos as int, end as int);
    }
    if end == pos || end - pos > 19 {
        return None;
    }
    if s[pos] == 48 && end - pos > 1 {
        return None;
    }
    let ghost ds = s@.subrange(pos as int, end as int);
    proof {
        lemma_digits_val_bound(ds);
    }
    let mut acc: u64 = 0;
    let mut k: usize = pos;
    while k < end
        invariant
            pos <= k <= end <= n == s@.len(),
            end - pos <= 19,
            ds == s@.subrange(pos as int, end as int),
            forall|i: int| pos <= i < end ==> is_digit(#[trigger] s@[i]),
            acc == digits_val(s@.subrange(pos as int, k as int)),
            acc < pow10((k - pos) as nat),
        decreases end - k,
    {
        let d = s[k] - 48;
        proof {
            let pre = s@.subrange(pos as int, k as int);
            let cur = s@.subrange(pos as int, k as int + 1);
            assert(cur.drop_last() =~= pre);
            assert(cur.last() == s@[k as int]);
            lemma_pow10_mono((k - pos) as nat, 18);
            reveal_with_fuel(pow10, 20);
            assert(pow10(18) == 1000000000000000000);
            assert(acc * 10 + d < 10 * pow10((k - pos) as nat));
        }
        acc = acc * 10 + d as u64;
        k += 1;
    }
    proof {
        assert(s@.subrange(pos as int, end as int) == ds);
        assert(digits_val(ds) < pow10(ds.len()));
        lemma_pow10_mono(ds.len(), 19);
        reveal_with_fuel(pow10, 20);
        assert(pow10(19) == 10000000000000000000);
    }
    Some((acc, end))
}

} // verus!
