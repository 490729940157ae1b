//! Client-IP resolution for rate-limit keys.  The priority order is part of
//! the contract: the `CF-Connecting-IP` header, then `X-Real-IP`, then the
//! first entry of `X-Forwarded-For`, and finally the direct peer address.

use vstd::prelude::*;
use vstd::string::*;

verus! {

/// An ASCII space or tab, as trimmed around forwarded entries.
pub open spec fn is_space_char(c: char) -> bool {
    c == ' ' || c == '\t'
}

/// The position of the first comma at or after `pos`, or the length.
pub open spec fn find_comma(s: Seq<char>, pos: int) -> int
    decreases s.len() - pos,
{
    if pos < 0 || pos >= s.len() {
        s.len() as int
    } else if s[pos] == ',' {
        pos
    } else {
        find_comma(s, pos + 1)
    }
}

/// The string without leading spaces and tabs.
pub open spec fn trim_front(s: Seq<char>) -> Seq<char>
    decreases s.len(),
{
    if s.len() > 0 && is_space_char(s[0]) {
        trim_front(s.skip(1))
    } else {
        s
    }
}

/// The string without trailing spaces and tabs.
pub open spec fn trim_back(s: Seq<char>) -> Seq<char>
    decreases s.len(),
{
    if s.len() > 0 && is_space_char(s.last()) {
        trim_back(s.drop_last())
    } else {
        s
    }
}

/// The first comma-separated entry, trimmed.
pub open spec fn spec_first_forwarded(s: Seq<char>) -> Seq<char> {
    trim_back(trim_front(s.subrange(0, find_comma(s, 0))))
}

/// The address the limiters key on, given the three headers in priority
/// order and the peer address.
pub open spec fn spec_client_ip(
    cf: Option<Seq<char>>,
    xr: Option<Seq<char>>,
    xf: Option<Seq<char>>,
    peer: Seq<char>,
) -> Seq<char> {
    match cf {
        Some(s) => s,
        None => match xr {
            Some(s) => s,
            None => match xf {
                Some(s) => spec_first_forwarded(s),
                None => peer,
            },
        },
    }
}

proof fn lemma_find_comma_char(s: Seq<char>, pos: int, e: int)
    requires
        0 <= pos <= e <= s.len(),
        forall|i: int| pos <= i < e ==> s[i] != ',',
        e == s.len() || s[e] == ',',
    ensures
        find_comma(s, pos) == e,
    decreases e - pos,
{
    if pos < e {
        lemma_find_comma_char(s, pos + 1, e);
    }
}

proof fn lemma_trim_front_range(s: Seq<char>, a: int)
    requires
        0 <= a <= s.len(),
        forall|i: int| 0 <= i < a ==> is_space_char(#[trigger] s[i]),
        a == s.len() || !is_space_char(s[a]),
    ensures
        trim_front(s) == s.subrange(a, s.len() as int),
    decreases a,
{
    if a == 0 {
        assert(s.subrange(0, s.len() as int) =~= s);
    } else {
        assert(s.skip(1) =~= s.subrange(1, s.len() as int));
        assert forall|i: int| 0 <= i < a - 1 implies is_space_char(#[trigger] s.skip(1)[i]) by {
            assert(s.skip(1)[i] == s[i + 1]);
        }
        assert(a - 1 == s.skip(1).len() || !is_space_char(s.skip(1)[a - 1]));
        lemma_trim_front_range(s.skip(1), a - 1);
        assert(s.skip(1).subrange(a - 1, s.skip(1).len() as int) =~= s.subrange(
            a,
            s.len() as int,
        ));
    }
}

proof fn lemma_trim_back_range(s: Seq<char>, b: int)
    requires
        0 <= b <= s.len(),
        forall|i: int| b <= i < s.len() ==> is_space_char(#[trigger] s[i]),
        b == 0 || !is_space_char(s[b - 1]),
    ensures
        trim_back(s) == s.subrange(0, b),
    decreases s.len(),
{
    if b == s.len() {
        assert(s.subrange(0, b) =~= s);
    } else {
        assert(s.drop_last() =~= s.subrange(0, s.len() - 1));
        assert forall|i: int| b <= i < s.drop_last().len() implies is_space_char(
            #[trigger] s.drop_last()[i],
        ) by {
            assert(s.drop_last()[i] == s[i]);
        }
        lemma_trim_back_range(s.drop_last(), b);
        assert(s.drop_last().subrange(0, b) =~= s.subrange(0, b));
    }
}

/// Extracts the first comma-separated entry of a forwarded header, with
/// surrounding spaces and tabs removed.
pub fn first_forwarded_entry(s: &str) -> (r: String)
    ensures
        r@ == spec_first_forwarded(s@),
{
    let n = s.unicode_len();
    // the first comma bounds the entry.
    let mut e: usize = 0;
    while e < n && s.get_char(e) != ','
        invariant
            e <= n == s@.len(),
            forall|i: int| 0 <= i < e ==> s@[i] != ',',
        decreases n - e,
    {
        e += 1;
    }
    proof {
        lemma_find_comma_char(s@, 0, e as int);
    }
    let ghost entry = s@.subrange(0, e as int);
    // trim leading spaces.
    let mut a: usize = 0;
    while a < e && (s.get_char(a) == ' ' || s.get_char(a) == '\t')
        invariant
            a <= e <= n == s@.len(),
            forall|i: int| 0 <= i < a ==> is_space_char(#[trigger] s@[i]),
        decreases e - a,
    {
        a += 1;
    }
    // trim trailing spaces.
    let mut b: usize = e;
    while b > a && (s.get_char(b - 1) == ' ' || s.get_char(b - 1) == '\t')
        invariant
            a <= b <= e <= n == s@.len(),
            forall|i: int| b <= i < e ==> is_space_char(#[trigger] s@[i]),
        decreases b,
    {
        b -= 1;
    }
    let out = s.substring_char(a, b).to_owned();
    proof {
        assert forall|i: int| 0 <= i < a implies is_space_char(#[trigger] entry[i]) by {
            assert(entry[i] == s@[i]);
        }
        assert(a == entry.len() || !is_space_char(entry[a as int]));
        lemma_trim_front_range(entry, a as int);
        let mid = entry.subrange(a as int, e as int);
        assert(trim_front(entry) =~= mid);
        assert forall|i: int| b - a <= i < mid.len() implies is_space_char(#[trigger] mid[i]) by {
            assert(mid[i] == s@[a + i]);
        }
        assert(b - a == 0 || !is_space_char(mid[b - a - 1]));
        lemma_trim_back_range(mid, b - a);
        assert(mid.subrange(0, b - a) =~= s@.subrange(a as int, b as int));
    }
    out
}

/// Resolves the client address from the headers in priority order, falling
/// back to the peer address.
pub fn get_client_ip(
    cf_connecting_ip: Option<&str>,
    x_real_ip: Option<&str>,
    x_forwarded_for: Option<&str>,
    peer: &str,
) -> (r: String)
    ensures
        r@ == spec_client_ip(
            match cf_connecting_ip {
                Some(s) => Some(s@),
                None => None,
            },
            match x_real_ip {
                Some(s) => Some(s@),
                None => None,
            },
            match x_forwarded_for {
                Some(s) => Some(s@),
                None => None,
            },
            peer@,
        ),
{
    match cf_connecting_ip {
        Some(s) => s.to_owned(),
        None => match x_real_ip {
            Some(s) => s.to_owned(),
            None => match x_forwarded_for {
                Some(s) => first_forwarded_entry(s),
                None => peer.to_owned(),
            },
        },
    }
}


/// The comma-separated entries of a list header or variable, each trimmed.
pub open spec fn spec_split_trimmed(s: Seq<char>) -> Seq<Seq<char>>
    decreases s.len(),
{
    let c = find_comma(s, 0);
    if !(0 <= c < s.len()) {
        seq![trim_back(trim_front(s))]
    } else {
        seq![trim_back(trim_front(s.subrange(0, c)))] + spec_split_trimmed(
            s.subrange(c + 1, s.len() as int),
        )
    }
}

/// Splits on commas and trims each entry; the empty string yields one
/// empty entry.
pub fn split_commas_trimmed(s: &str) -> (r: Vec<String>)
    ensures
        r@.len() == spec_split_trimmed(s@).len(),
        forall|i: int| 0 <= i < r@.len() ==> #[trigger] r@[i]@ == spec_split_trimmed(s@)[i],
    decreases s@.len(),
{
    let n = s.unicode_len();
    let mut e: usize = 0;
    while e < n && s.get_char(e) != ','
        invariant
            e <= n == s@.len(),
            forall|i: int| 0 <= i < e ==> s@[i] != ',',
        decreases n - e,
    {
        e += 1;
    }
    proof {
        lemma_find_comma_char(s@, 0, e as int);
    }
    let first = first_forwarded_entry(s);
    if e >= n {
        let mut out: Vec<String> = Vec::new();
        out.push(first);
        proof {
            assert(s@.subrange(0, s@.len() as int) =~= s@);
        }
        out
    } else {
        let rest = s.substring_char(e + 1, n);
        let mut out = split_commas_trimmed(rest);
        let ghost tail_out = out@;
        out.insert(0, first);
        proof {
            assert(rest@ =~= s@.subrange(e + 1, n as int));
            let sp = spec_split_trimmed(s@);
            assert(sp == seq![trim_back(trim_front(s@.subrange(0, e as int)))]
                + spec_split_trimmed(rest@));
            assert forall|i: int| 0 <= i < out@.len() implies #[trigger] out@[i]@ == sp[i] by {
                if i > 0 {
                    assert(out@[i] == tail_out[i - 1]);
                    assert(sp[i] == spec_split_trimmed(rest@)[i - 1]);
                }
            }
        }
        out
    }
}

} // verus!
