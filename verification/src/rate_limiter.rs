//! Keyed fixed-window token buckets, and the two limiter families built on
//! them: mail-send (per email, per IP) and authentication (per IP, per
//! user).  A bucket holds `cap` tokens; a full window after its start the
//! bucket refills completely.

use vstd::prelude::*;
use vstd::string::*;
use crate::strmap::StrMap;
use crate::bytes::ascii_bytes_to_string;
use crate::decimal::{spec_dec, push_u64_dec};

verus! {

/// One bucket: remaining tokens and the start of its current window.
#[derive(Clone, Copy, Debug, PartialEq, Eq, Structural)]
pub struct Bucket {
    pub tokens: u32,
    pub window_start: u64,
}

/// The refill a bucket sees at time `now` under window length `period`:
/// a full window after its start (or a clock regression), the bucket
/// refills to `cap` tokens and the window restarts.
pub open spec fn refill(b: Bucket, cap: u32, period: u64, now: u64) -> Bucket {
    if now >= b.window_start && now - b.window_start >= period {
        Bucket { tokens: cap, window_start: now }
    } else {
        b
    }
}

/// The transition one charge makes on a keyed slot, and whether it
/// succeeds: an absent key starts a full window with one token taken; a
/// present bucket first refills, then pays one token if it has one.
pub open spec fn charge_step(b: Option<Bucket>, cap: u32, period: u64, now: u64) -> (
    Option<Bucket>,
    bool,
)
    recommends
        cap >= 1,
{
    match b {
        None => (Some(Bucket { tokens: (cap - 1) as u32, window_start: now }), true),
        Some(bb) => {
            let f = refill(bb, cap, period, now);
            if f.tokens > 0 {
                (Some(Bucket { tokens: (f.tokens - 1) as u32, window_start: f.window_start }), true)
            } else {
                (Some(f), false)
            }
        },
    }
}

/// The seconds to wait before a rejected charge could succeed.
pub open spec fn spec_wait(b: Bucket, period: u64, now: u64) -> u64 {
    if now >= b.window_start && period >= now - b.window_start {
        (period - (now - b.window_start)) as u64
    } else {
        period
    }
}

/// The number of `true`s in a sequence.
pub open spec fn count_true(s: Seq<bool>) -> int
    decreases s.len(),
{
    if s.len() == 0 {
        0
    } else {
        count_true(s.drop_last()) + if s.last() {
            1int
        } else {
            0int
        }
    }
}

/// Within a single window no refill happens, so the number of successful
/// charges on one key is bounded by the tokens the window began with —
/// never more than the bucket capacity.  `bs[i]` is the slot before the
/// `i`-th charge, `oks[i]` its outcome, at time `ts[i]`.
pub proof fn lemma_charges_bounded_in_window(
    bs: Seq<Bucket>,
    ts: Seq<u64>,
    oks: Seq<bool>,
    cap: u32,
    period: u64,
)
    requires
        cap >= 1,
        bs.len() == ts.len() + 1,
        oks.len() == ts.len(),
        bs[0].tokens <= cap,
        forall|i: int|
            0 <= i < ts.len() ==> (ts[i] >= bs[0].window_start && ts[i] - bs[0].window_start
                < period),
        forall|i: int|
            0 <= i < ts.len() ==> (Some(#[trigger] bs[i + 1]), oks[i]) == charge_step(
                Some(bs[i]),
                cap,
                period,
                ts[i],
            ),
    ensures
        count_true(oks) <= bs[0].tokens <= cap,
        bs.last().window_start == bs[0].window_start,
        bs.last().tokens + count_true(oks) == bs[0].tokens,
    decreases ts.len(),
{
    if ts.len() == 0 {
        assert(bs.last() == bs[0]);
    } else {
        let n = ts.len() as int;
        lemma_charges_bounded_in_window(bs.drop_last(), ts.drop_last(), oks.drop_last(), cap, period);
        let prev = bs[n - 1];
        assert(bs.drop_last().last() == prev);
        assert(bs.drop_last()[0] == bs[0]);
        assert((Some(bs[n]), oks[n - 1]) == charge_step(Some(prev), cap, period, ts[n - 1]));
        assert(refill(prev, cap, period, ts[n - 1]) == prev);
        assert(oks.drop_last().len() == n - 1);
        assert(oks.last() == oks[n - 1]);
    }
}

/// A keyed family of fixed-window buckets with one capacity and window.
pub struct KeyedLimiter {
    buckets: StrMap<Bucket>,
    cap: u32,
    period: u64,
}

impl KeyedLimiter {
    /// The bucket for a key, if one exists yet.
    pub open spec fn spec_bucket(&self, k: Seq<char>) -> Option<Bucket> {
        self.bucket_map().spec_get(k)
    }

    pub closed spec fn bucket_map(&self) -> &StrMap<Bucket> {
        &self.buckets
    }

    /// The configured capacity.
    pub closed spec fn spec_cap(&self) -> u32 {
        self.cap
    }

    /// The configured window length in seconds.
    pub closed spec fn spec_period(&self) -> u64 {
        self.period
    }

    pub closed spec fn wf(&self) -> bool {
        self.buckets.wf() && self.cap >= 1
    }

    /// Creates a limiter with the given capacity and window.
    pub fn new(cap: u32, period: u64) -> (r: Self)
        requires
            cap >= 1,
        ensures
            r.wf(),
            r.spec_cap() == cap,
            r.spec_period() == period,
            forall|k: Seq<char>| #[trigger] r.spec_bucket(k) is None,
    {
        KeyedLimiter { buckets: StrMap::new(), cap, period }
    }

    /// Charges one token from the key's bucket; on rejection returns the
    /// seconds to wait.  The slot steps exactly by `charge_step`; no other
    /// key's bucket changes.
    pub fn charge(&mut self, k: &str, now: u64) -> (r: Result<(), u64>)
        requires
            old(self).wf(),
        ensures
            final(self).wf(),
            final(self).spec_cap() == old(self).spec_cap(),
            final(self).spec_period() == old(self).spec_period(),
            ({
                let (post, ok) = charge_step(
                    old(self).spec_bucket(k@),
                    old(self).spec_cap(),
                    old(self).spec_period(),
                    now,
                );
                &&& final(self).spec_bucket(k@) == post
                &&& (r is Ok <==> ok)
                &&& (r matches Err(w) ==> w == spec_wait(
                    old(self).spec_bucket(k@)->Some_0,
                    old(self).spec_period(),
                    now,
                ))
            }),
            forall|k2: Seq<char>|
                k2 != k@ ==> #[trigger] final(self).spec_bucket(k2) == old(self).spec_bucket(k2),
    {
        match self.buckets.index_of(k) {
            None => {
                self.buckets.insert(
                    k.to_owned(),
                    Bucket { tokens: self.cap - 1, window_start: now },
                );
                Ok(())
            },
            Some(i) => {
                let b = *self.buckets.value_at(i);
                let f = if now >= b.window_start && now - b.window_start >= self.period {
                    Bucket { tokens: self.cap, window_start: now }
                } else {
                    b
                };
                if f.tokens > 0 {
                    self.buckets.set_at(
                        i,
                        Bucket { tokens: f.tokens - 1, window_start: f.window_start },
                    );
                    Ok(())
                } else {
                    self.buckets.set_at(i, f);
                    let wait = if now >= b.window_start && self.period >= now - b.window_start {
                        self.period - (now - b.window_start)
                    } else {
                        self.period
                    };
                    Err(wait)
                }
            },
        }
    }
}

/// Renders `n` in decimal.
pub fn u64_to_string(n: u64) -> (r: String)
    ensures
        vstd::utf8::encode_utf8(r@) == spec_dec(n),
{
    let mut v: Vec<u8> = Vec::new();
    push_u64_dec(&mut v, n);
    proof {
        crate::decimal::lemma_dec_digits(n);
        assert(Seq::<u8>::empty() + spec_dec(n) =~= spec_dec(n));
        assert forall|i: int| 0 <= i < v@.len() implies v@[i] < 128 by {
            assert(crate::validate::is_digit(v@[i]));
        }
    }
    ascii_bytes_to_string(v)
}

/// Builds the human retry hint "try again in Ns".
fn wait_message(prefix: &str, wait: u64) -> (r: String)
    ensures
        r@.len() > 0,
{
    let mut msg = prefix.to_owned();
    let secs = u64_to_string(wait);
    msg.append(secs.as_str());
    msg.append("s.");
    proof {
        crate::decimal::lemma_dec_digits(wait);
        assert(vstd::utf8::encode_utf8(secs@).len() > 0);
        if secs@.len() == 0 {
            assert(vstd::utf8::encode_utf8(secs@) =~= Seq::<u8>::empty());
        }
    }
    msg
}

/// The mail-send limiter family: per-email bursts of 3 each 15 minutes,
/// per-IP bursts of 5 each hour.
pub struct EmailRateLimiter {
    per_email: KeyedLimiter,
    per_ip: KeyedLimiter,
}

impl EmailRateLimiter {
    pub open spec fn email_bucket(&self, k: Seq<char>) -> Option<Bucket> {
        self.email_limiter().spec_bucket(k)
    }

    pub open spec fn ip_bucket(&self, k: Seq<char>) -> Option<Bucket> {
        self.ip_limiter().spec_bucket(k)
    }

    pub closed spec fn email_limiter(&self) -> &KeyedLimiter {
        &self.per_email
    }

    pub closed spec fn ip_limiter(&self) -> &KeyedLimiter {
        &self.per_ip
    }

    pub open spec fn wf(&self) -> bool {
        &&& self.email_limiter().wf()
        &&& self.ip_limiter().wf()
        &&& self.email_limiter().spec_cap() == 3
        &&& self.email_limiter().spec_period() == 900
        &&& self.ip_limiter().spec_cap() == 5
        &&& self.ip_limiter().spec_period() == 3600
    }

    /// Creates the mail-send limiter family with its fixed quotas.
    pub fn new() -> (r: Self)
        ensures
            r.wf(),
            forall|k: Seq<char>| #[trigger] r.email_bucket(k) is None,
            forall|k: Seq<char>| #[trigger] r.ip_bucket(k) is None,
    {
        EmailRateLimiter { per_email: KeyedLimiter::new(3, 900), per_ip: KeyedLimiter::new(5, 3600) }
    }

    /// Charges the per-email bucket.
    pub fn check_email_limit(&mut self, email: &str, now: u64) -> (r: Result<(), String>)
        requires
            old(self).wf(),
        ensures
            final(self).wf(),
            ({
                let (post, ok) = charge_step(old(self).email_bucket(email@), 3, 900, now);
                &&& final(self).email_bucket(email@) == post
                &&& (r is Ok <==> ok)
                &&& (r matches Err(m) ==> m@.len() > 0)
            }),
            forall|k2: Seq<char>|
                k2 != email@ ==> #[trigger] final(self).email_bucket(k2) == old(self).email_bucket(
                    k2,
                ),
            forall|k2: Seq<char>| #![trigger final(self).ip_bucket(k2)]
                final(self).ip_bucket(k2) == old(self).ip_bucket(k2),
    {
        match self.per_email.charge(email, now) {
            Ok(()) => Ok(()),
            Err(w) => Err(wait_message("Email rate limit exceeded. Please try again in ", w)),
        }
    }

    /// Charges the per-IP bucket.
    pub fn check_ip_limit(&mut self, ip: &str, now: u64) -> (r: Result<(), String>)
        requires
            old(self).wf(),
        ensures
            final(self).wf(),
            ({
                let (post, ok) = charge_step(old(self).ip_bucket(ip@), 5, 3600, now);
                &&& final(self).ip_bucket(ip@) == post
                &&& (r is Ok <==> ok)
                &&& (r matches Err(m) ==> m@.len() > 0)
            }),
            forall|k2: Seq<char>|
                k2 != ip@ ==> #[trigger] final(self).ip_bucket(k2) == old(self).ip_bucket(k2),
            forall|k2: Seq<char>| #![trigger final(self).email_bucket(k2)]
                final(self).email_bucket(k2) == old(self).email_bucket(k2),
    {
        match self.per_ip.charge(ip, now) {
            Ok(()) => Ok(()),
            Err(w) => Err(wait_message("IP rate limit exceeded. Please try again in ", w)),
        }
    }
}

impl Default for EmailRateLimiter {
    /// Creates the mail-send limiter family with its fixed quotas.
    fn default() -> (r: Self)
        ensures
            r.wf(),
            forall|k: Seq<char>| #[trigger] r.email_bucket(k) is None,
            forall|k: Seq<char>| #[trigger] r.ip_bucket(k) is None,
    {
        EmailRateLimiter::new()
    }
}

/// The authentication limiter family: per-IP bursts of 30 each hour,
/// per-user bursts of 5 each minute.
pub struct AuthRateLimiter {
    per_ip: KeyedLimiter,
    per_user: KeyedLimiter,
}

impl AuthRateLimiter {
    pub open spec fn ip_bucket(&self, k: Seq<char>) -> Option<Bucket> {
        self.ip_limiter().spec_bucket(k)
    }

    pub open spec fn user_bucket(&self, k: Seq<char>) -> Option<Bucket> {
        self.user_limiter().spec_bucket(k)
    }

    pub closed spec fn ip_limiter(&self) -> &KeyedLimiter {
        &self.per_ip
    }

    pub closed spec fn user_limiter(&self) -> &KeyedLimiter {
        &self.per_user
    }

    pub open spec fn wf(&self) -> bool {
        &&& self.ip_limiter().wf()
        &&& self.user_limiter().wf()
        &&& self.ip_limiter().spec_cap() == 30
        &&& self.ip_limiter().spec_period() == 3600
        &&& self.user_limiter().spec_cap() == 5
        &&& self.user_limiter().spec_period() == 60
    }

    /// Creates the authentication limiter family with its fixed quotas.
    pub fn new() -> (r: Self)
        ensures
            r.wf(),
            forall|k: Seq<char>| #[trigger] r.ip_bucket(k) is None,
            forall|k: Seq<char>| #[trigger] r.user_bucket(k) is None,
    {
        AuthRateLimiter { per_ip: KeyedLimiter::new(30, 3600), per_user: KeyedLimiter::new(5, 60) }
    }

    /// Charges the per-IP bucket.
    pub fn check_ip_limit(&mut self, ip: &str, now: u64) -> (r: Result<(), String>)
        requires
            old(self).wf(),
        ensures
            final(self).wf(),
            ({
                let (post, ok) = charge_step(old(self).ip_bucket(ip@), 30, 3600, now);
                &&& final(self).ip_bucket(ip@) == post
                &&& (r is Ok <==> ok)
                &&& (r matches Err(m) ==> m@.len() > 0)
            }),
            forall|k2: Seq<char>|
                k2 != ip@ ==> #[trigger] final(self).ip_bucket(k2) == old(self).ip_bucket(k2),
            forall|k2: Seq<char>| #![trigger final(self).user_bucket(k2)]
                final(self).user_bucket(k2) == old(self).user_bucket(k2),
    {
        match self.per_ip.charge(ip, now) {
            Ok(()) => Ok(()),
            Err(w) => Err(
                wait_message(
                    "Too many authentication attempts from this IP. Please try again in ",
                    w,
                ),
            ),
        }
    }

    /// Charges the per-user bucket (keyed by user identifier or email).
    pub fn check_user_limit(&mut self, identifier: &str, now: u64) -> (r: Result<(), String>)
        requires
            old(self).wf(),
        ensures
            final(self).wf(),
            ({
                let (post, ok) = charge_step(old(self).user_bucket(identifier@), 5, 60, now);
                &&& final(self).user_bucket(identifier@) == post
                &&& (r is Ok <==> ok)
                &&& (r matches Err(m) ==> m@.len() > 0)
            }),
            forall|k2: Seq<char>|
                k2 != identifier@ ==> #[trigger] final(self).user_bucket(k2) == old(
                    self,
                ).user_bucket(k2),
            forall|k2: Seq<char>| #![trigger final(self).ip_bucket(k2)]
                final(self).ip_bucket(k2) == old(self).ip_bucket(k2),
    {
        match self.per_user.charge(identifier, now) {
            Ok(()) => Ok(()),
            Err(w) => Err(wait_message("Too many requests. Please try again in ", w)),
        }
    }
}

impl Default for AuthRateLimiter {
    /// Creates the authentication limiter family with its fixed quotas.
    fn default() -> (r: Self)
        ensures
            r.wf(),
            forall|k: Seq<char>| #[trigger] r.ip_bucket(k) is None,
            forall|k: Seq<char>| #[trigger] r.user_bucket(k) is None,
    {
        AuthRateLimiter::new()
    }
}

} // verus!
