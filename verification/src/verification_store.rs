//! In-memory store of pending verification codes and single-use
//! intermediate tokens, with expiry and attempt counting.

use vstd::prelude::*;
use vstd::string::*;
use crate::strmap::{StrMap, lemma_find_some_index};

verus! {

/// The workflow a pending verification belongs to.
#[derive(Clone, Copy, Debug, PartialEq, Eq, Hash, Structural)]
pub enum VerificationPurpose {
    Registration,
    PasswordReset,
}

/// A pending verification code, keyed by email within a workflow.
pub struct VerificationCode {
    pub code: String,
    pub expires_at: u64,
    pub attempts: u32,
}

/// The mathematical value of a pending verification code.
pub ghost struct CodeData {
    pub code: Seq<char>,
    pub expires_at: u64,
    pub attempts: u32,
}

impl View for VerificationCode {
    type V = CodeData;

    open spec fn view(&self) -> CodeData {
        CodeData { code: self.code@, expires_at: self.expires_at, attempts: self.attempts }
    }
}

/// A stored intermediate token, keyed by the credential string itself.
pub struct RegistrationToken {
    pub email: String,
    pub expires_at: u64,
    pub used: bool,
}

/// The mathematical value of a stored intermediate token.
pub ghost struct TokenData {
    pub email: Seq<char>,
    pub expires_at: u64,
    pub used: bool,
}

impl View for RegistrationToken {
    type V = TokenData;

    open spec fn view(&self) -> TokenData {
        TokenData { email: self.email@, expires_at: self.expires_at, used: self.used }
    }
}

/// Why a code check failed structurally.
#[derive(Clone, Copy, Debug, PartialEq, Eq, Structural)]
pub enum CodeError {
    /// No pending code for this email and workflow.
    NotFound,
    /// The pending code had expired; it is removed.
    Expired,
    /// The sixth or later attempt; the entry is removed.
    TooManyAttempts,
}

/// Why a token consumption failed.
#[derive(Clone, Copy, Debug, PartialEq, Eq, Structural)]
pub enum TokenError {
    /// The token was never stored, or was invalidated.
    NotFound,
    /// The token had expired; it is removed.
    Expired,
    /// The token was already consumed once; kept visible until expiry.
    AlreadyUsed,
    /// The token was stored for a different email address.
    EmailMismatch,
}

/// The state transition `check_code` makes on the addressed slot, and the
/// result it returns: missing is "not found"; expired or over-tried slots
/// are removed with their error; otherwise the attempt is counted, and a
/// matching code consumes the slot.
pub open spec fn check_code_post(
    pre: Option<CodeData>,
    post: Option<CodeData>,
    supplied: Seq<char>,
    now: u64,
    r: Result<bool, CodeError>,
) -> bool {
    match pre {
        None => r == Err::<bool, CodeError>(CodeError::NotFound) && post == pre,
        Some(e) => if now > e.expires_at {
            r == Err::<bool, CodeError>(CodeError::Expired) && post is None
        } else if e.attempts >= 5 {
            r == Err::<bool, CodeError>(CodeError::TooManyAttempts) && post is None
        } else if supplied == e.code {
            r == Ok::<bool, CodeError>(true) && post is None
        } else {
            r == Ok::<bool, CodeError>(false) && post == Some(
                CodeData { code: e.code, expires_at: e.expires_at, attempts: (e.attempts + 1) as u32 },
            )
        },
    }
}

/// The state transition `consume_token` makes on the addressed slot, and
/// the result it returns: exactly one consumption can ever return `Ok`,
/// because the slot's `used` bit is set and a used slot always answers
/// "already used" until it expires.
pub open spec fn consume_token_post(
    pre: Option<TokenData>,
    post: Option<TokenData>,
    email: Seq<char>,
    now: u64,
    r: Result<(), TokenError>,
) -> bool {
    match pre {
        None => r == Err::<(), TokenError>(TokenError::NotFound) && post == pre,
        Some(e) => if now > e.expires_at {
            r == Err::<(), TokenError>(TokenError::Expired) && post is None
        } else if e.used {
            r == Err::<(), TokenError>(TokenError::AlreadyUsed) && post == pre
        } else if e.email != email {
            r == Err::<(), TokenError>(TokenError::EmailMismatch) && post == pre
        } else {
            r == Ok::<(), TokenError>(()) && post == Some(
                TokenData { email: e.email, expires_at: e.expires_at, used: true },
            )
        },
    }
}

/// In-memory store of pending verifications and intermediate tokens.
pub struct VerificationStore {
    reg_codes: StrMap<VerificationCode>,
    reset_codes: StrMap<VerificationCode>,
    tokens: StrMap<RegistrationToken>,
}

impl VerificationStore {
    /// The pending code for `(email, purpose)`.
    pub open spec fn spec_code(&self, email: Seq<char>, p: VerificationPurpose) -> Option<
        CodeData,
    > {
        match p {
            VerificationPurpose::Registration => match self.reg_map().spec_get(email) {
                Some(v) => Some(v@),
                None => None,
            },
            VerificationPurpose::PasswordReset => match self.reset_map().spec_get(email) {
                Some(v) => Some(v@),
                None => None,
            },
        }
    }

    /// The stored record for an intermediate token string.
    pub open spec fn spec_token(&self, token: Seq<char>) -> Option<TokenData> {
        match self.token_map().spec_get(token) {
            Some(v) => Some(v@),
            None => None,
        }
    }

    pub closed spec fn reg_map(&self) -> &StrMap<VerificationCode> {
        &self.reg_codes
    }

    pub closed spec fn reset_map(&self) -> &StrMap<VerificationCode> {
        &self.reset_codes
    }

    pub closed spec fn token_map(&self) -> &StrMap<RegistrationToken> {
        &self.tokens
    }

    /// All three key spaces have distinct keys.
    pub closed spec fn wf(&self) -> bool {
        self.reg_codes.wf() && self.reset_codes.wf() && self.tokens.wf()
    }

    /// Creates an empty store.
    pub fn new() -> (r: Self)
        ensures
            r.wf(),
            forall|em: Seq<char>, p: VerificationPurpose| #[trigger] r.spec_code(em, p) is None,
            forall|t: Seq<char>| #[trigger] r.spec_token(t) is None,
    {
        VerificationStore {
            reg_codes: StrMap::new(),
            reset_codes: StrMap::new(),
            tokens: StrMap::new(),
        }
    }

    /// Stores a fresh verification code for `(email, purpose)`, overwriting
    /// any prior entry: attempts reset to zero, expiry 15 minutes from now.
    pub fn store_verification_code(
        &mut self,
        email: String,
        code: String,
        purpose: VerificationPurpose,
        now: u64,
    )
        requires
            old(self).wf(),
            now + 900 <= u64::MAX,
        ensures
            final(self).wf(),
            final(self).spec_code(email@, purpose) == Some(
                CodeData { code: code@, expires_at: (now + 900) as u64, attempts: 0 },
            ),
            forall|em2: Seq<char>, p2: VerificationPurpose|
                !(em2 == email@ && p2 == purpose) ==> #[trigger] final(self).spec_code(em2, p2)
                    == old(self).spec_code(em2, p2),
            forall|t: Seq<char>| #![trigger final(self).spec_token(t)] final(self).spec_token(t) == old(self).spec_token(t),
    {
        let slot = VerificationCode { code, expires_at: now + 900, attempts: 0 };
        match purpose {
            VerificationPurpose::Registration => self.reg_codes.insert(email, slot),
            VerificationPurpose::PasswordReset => self.reset_codes.insert(email, slot),
        }
    }

    /// Checks a supplied code for `(email, purpose)` atomically; the slot
    /// transition and result follow `check_code_post`.
    pub fn verify_code(
        &mut self,
        email: &str,
        code: &str,
        purpose: &VerificationPurpose,
        now: u64,
    ) -> (r: Result<bool, CodeError>)
        requires
            old(self).wf(),
        ensures
            final(self).wf(),
            check_code_post(
                old(self).spec_code(email@, *purpose),
                final(self).spec_code(email@, *purpose),
                code@,
                now,
                r,
            ),
            forall|em2: Seq<char>, p2: VerificationPurpose|
                !(em2 == email@ && p2 == *purpose) ==> #[trigger] final(self).spec_code(em2, p2)
                    == old(self).spec_code(em2, p2),
            forall|t: Seq<char>| #![trigger final(self).spec_token(t)] final(self).spec_token(t) == old(self).spec_token(t),
    {
        match purpose {
            VerificationPurpose::Registration => check_code_in(&mut self.reg_codes, email, code, now),
            VerificationPurpose::PasswordReset => check_code_in(
                &mut self.reset_codes,
                email,
                code,
                now,
            ),
        }
    }

    /// Stores an intermediate token for `email`, unused, expiring `ttl`
    /// seconds from now (the workflow chooses the lifetime); overwrites any
    /// prior record for the same string.
    pub fn store_registration_token(&mut self, email: String, token: String, ttl: u64, now: u64)
        requires
            old(self).wf(),
            now + ttl <= u64::MAX,
        ensures
            final(self).wf(),
            final(self).spec_token(token@) == Some(
                TokenData { email: email@, expires_at: (now + ttl) as u64, used: false },
            ),
            forall|t2: Seq<char>|
                t2 != token@ ==> #[trigger] final(self).spec_token(t2) == old(self).spec_token(t2),
            forall|em: Seq<char>, p: VerificationPurpose|
                #![trigger final(self).spec_code(em, p)]
                final(self).spec_code(em, p) == old(self).spec_code(em, p),
    {
        let slot = RegistrationToken { email, expires_at: now + ttl, used: false };
        self.tokens.insert(token, slot);
    }

    /// Consumes an intermediate token for `email` atomically; the slot
    /// transition and result follow `consume_token_post`, so among any
    /// number of consumptions of one token at most one returns `Ok`.
    pub fn verify_registration_token(&mut self, token: &str, email: &str, now: u64) -> (r: Result<
        (),
        TokenError,
    >)
        requires
            old(self).wf(),
        ensures
            final(self).wf(),
            consume_token_post(
                old(self).spec_token(token@),
                final(self).spec_token(token@),
                email@,
                now,
                r,
            ),
            forall|t2: Seq<char>|
                t2 != token@ ==> #[trigger] final(self).spec_token(t2) == old(self).spec_token(t2),
            forall|em: Seq<char>, p: VerificationPurpose|
                #![trigger final(self).spec_code(em, p)]
                final(self).spec_code(em, p) == old(self).spec_code(em, p),
    {
        let i = match self.tokens.index_of(token) {
            Some(i) => i,
            None => {
                return Err(TokenError::NotFound);
            },
        };
        let slot = self.tokens.value_at(i);
        if now > slot.expires_at {
            self.tokens.remove_at(i);
            return Err(TokenError::Expired);
        }
        if slot.used {
            return Err(TokenError::AlreadyUsed);
        }
        let email_key: String = email.to_owned();
        if !(slot.email == email_key) {
            return Err(TokenError::EmailMismatch);
        }
        let updated = RegistrationToken {
            email: email_key,
            expires_at: slot.expires_at,
            used: true,
        };
        self.tokens.set_at(i, updated);
        Ok(())
    }

    /// Drops the record of an intermediate token outright.
    pub fn invalidate_registration_token(&mut self, token: &str)
        requires
            old(self).wf(),
        ensures
            final(self).wf(),
            final(self).spec_token(token@) is None,
            forall|t2: Seq<char>|
                t2 != token@ ==> #[trigger] final(self).spec_token(t2) == old(self).spec_token(t2),
            forall|em: Seq<char>, p: VerificationPurpose|
                #![trigger final(self).spec_code(em, p)]
                final(self).spec_code(em, p) == old(self).spec_code(em, p),
    {
        self.tokens.remove_key(token);
    }

    /// Drops every expired code and every expired or used token.  Live
    /// entries are kept exactly; nothing appears that was not live before.
    pub fn cleanup_expired(&mut self, now: u64)
        requires
            old(self).wf(),
        ensures
            final(self).wf(),
            forall|em: Seq<char>, p: VerificationPurpose|
                #![trigger final(self).spec_code(em, p)]
                match old(self).spec_code(em, p) {
                    Some(e) => final(self).spec_code(em, p) == if e.expires_at > now {
                        Some(e)
                    } else {
                        None::<CodeData>
                    },
                    None => final(self).spec_code(em, p) is None,
                },
            forall|t: Seq<char>|
                #![trigger final(self).spec_token(t)]
                match old(self).spec_token(t) {
                    Some(e) => final(self).spec_token(t) == if e.expires_at > now && !e.used {
                        Some(e)
                    } else {
                        None::<TokenData>
                    },
                    None => final(self).spec_token(t) is None,
                },
    {
        cleanup_codes_in(&mut self.reg_codes, now);
        cleanup_codes_in(&mut self.reset_codes, now);
        cleanup_tokens_in(&mut self.tokens, now);
    }

    /// The number of pending codes and stored tokens.
    pub fn stats(&self) -> (r: (usize, usize))
        requires
            self.reg_map().entries().len() + self.reset_map().entries().len() <= usize::MAX,
        ensures
            r.0 == self.reg_map().entries().len() + self.reset_map().entries().len(),
            r.1 == self.token_map().entries().len(),
    {
        (self.reg_codes.len() + self.reset_codes.len(), self.tokens.len())
    }
}

/// Checks a code inside one workflow's slot map.
fn check_code_in(m: &mut StrMap<VerificationCode>, email: &str, code: &str, now: u64) -> (r:
    Result<bool, CodeError>)
    requires
        old(m).wf(),
    ensures
        final(m).wf(),
        check_code_post(
            match old(m).spec_get(email@) {
                Some(v) => Some(v@),
                None => None,
            },
            match final(m).spec_get(email@) {
                Some(v) => Some(v@),
                None => None,
            },
            code@,
            now,
            r,
        ),
        forall|em2: Seq<char>|
            em2 != email@ ==> #[trigger] final(m).spec_get(em2) == old(m).spec_get(em2),
{
    let i = match m.index_of(email) {
        Some(i) => i,
        None => {
            return Err(CodeError::NotFound);
        },
    };
    let slot = m.value_at(i);
    if now > slot.expires_at {
        m.remove_at(i);
        return Err(CodeError::Expired);
    }
    if slot.attempts >= 5 {
        m.remove_at(i);
        return Err(CodeError::TooManyAttempts);
    }
    let code_key: String = code.to_owned();
    if slot.code == code_key {
        m.remove_at(i);
        return Ok(true);
    }
    let updated = VerificationCode {
        code: clone_string(&slot.code),
        expires_at: slot.expires_at,
        attempts: slot.attempts + 1,
    };
    m.set_at(i, updated);
    Ok(false)
}

/// Clones a string, preserving its characters.
fn clone_string(s: &String) -> (r: String)
    ensures
        r@ == s@,
{
    s.as_str().to_owned()
}

/// Drops expired code slots from one workflow's map.
fn cleanup_codes_in(m: &mut StrMap<VerificationCode>, now: u64)
    requires
        old(m).wf(),
    ensures
        final(m).wf(),
        forall|em: Seq<char>|
            #![trigger final(m).spec_get(em)]
            match old(m).spec_get(em) {
                Some(e) => final(m).spec_get(em) == if e.expires_at > now {
                    Some(e)
                } else {
                    None::<VerificationCode>
                },
                None => final(m).spec_get(em) is None,
            },
{
    let mut i: usize = 0;
    while i < m.len()
        invariant
            m.wf(),
            i <= m.entries().len(),
            forall|j: int| 0 <= j < i ==> #[trigger] m.entries()[j].1.expires_at > now,
            forall|em: Seq<char>|
                #![trigger m.spec_get(em)]
                match old(m).spec_get(em) {
                    Some(e) => if e.expires_at > now {
                        m.spec_get(em) == Some(e)
                    } else {
                        m.spec_get(em) == Some(e) || m.spec_get(em) is None
                    },
                    None => m.spec_get(em) is None,
                },
            forall|em: Seq<char>| #![trigger m.spec_get(em)]
                m.spec_get(em) is Some ==> m.spec_get(em) == old(m).spec_get(em),
        decreases m.entries().len() - i,
    {
        let alive = m.value_at(i).expires_at > now;
        if alive {
            i += 1;
        } else {
            proof {
                m.lemma_get_at(i as int);
            }
            m.remove_at(i);
        }
    }
    proof {
        assert forall|em: Seq<char>|
            #![trigger final(m).spec_get(em)]
            match old(m).spec_get(em) {
                Some(e) => final(m).spec_get(em) == if e.expires_at > now {
                    Some(e)
                } else {
                    None::<VerificationCode>
                },
                None => final(m).spec_get(em) is None,
            } by {
            if m.spec_get(em) is Some {
                lemma_find_some_index(m.entries(), em);
            }
        }
    }
}

/// Drops expired or used token slots.
fn cleanup_tokens_in(m: &mut StrMap<RegistrationToken>, now: u64)
    requires
        old(m).wf(),
    ensures
        final(m).wf(),
        forall|t: Seq<char>|
            #![trigger final(m).spec_get(t)]
            match old(m).spec_get(t) {
                Some(e) => final(m).spec_get(t) == if e.expires_at > now && !e.used {
                    Some(e)
                } else {
                    None::<RegistrationToken>
                },
                None => final(m).spec_get(t) is None,
            },
{
    let mut i: usize = 0;
    while i < m.len()
        invariant
            m.wf(),
            i <= m.entries().len(),
            forall|j: int|
                0 <= j < i ==> #[trigger] m.entries()[j].1.expires_at > now
                    && !m.entries()[j].1.used,
            forall|t: Seq<char>|
                #![trigger m.spec_get(t)]
                match old(m).spec_get(t) {
                    Some(e) => if e.expires_at > now && !e.used {
                        m.spec_get(t) == Some(e)
                    } else {
                        m.spec_get(t) == Some(e) || m.spec_get(t) is None
                    },
                    None => m.spec_get(t) is None,
                },
            forall|t: Seq<char>| #![trigger m.spec_get(t)]
                m.spec_get(t) is Some ==> m.spec_get(t) == old(m).spec_get(t),
        decreases m.entries().len() - i,
    {
        let slot = m.value_at(i);
        let alive = slot.expires_at > now && !slot.used;
        if alive {
            i += 1;
        } else {
            proof {
                m.lemma_get_at(i as int);
            }
            m.remove_at(i);
        }
    }
    proof {
        assert forall|t: Seq<char>|
            #![trigger final(m).spec_get(t)]
            match old(m).spec_get(t) {
                Some(e) => final(m).spec_get(t) == if e.expires_at > now && !e.used {
                    Some(e)
                } else {
                    None::<RegistrationToken>
                },
                None => final(m).spec_get(t) is None,
            } by {
            if m.spec_get(t) is Some {
                lemma_find_some_index(m.entries(), t);
            }
        }
    }
}


/// An intermediate token is single-use: once one consumption has returned
/// `Ok`, every further consumption of the same token fails — with "already
/// used" while the record lives, or "expired" after its expiry.
pub proof fn lemma_token_single_use(
    t0: Option<TokenData>,
    t1: Option<TokenData>,
    t2: Option<TokenData>,
    email1: Seq<char>,
    email2: Seq<char>,
    now1: u64,
    now2: u64,
    r2: Result<(), TokenError>,
)
    requires
        consume_token_post(t0, t1, email1, now1, Ok(())),
        consume_token_post(t1, t2, email2, now2, r2),
    ensures
        r2 !== Ok(()),
        now2 <= t1->Some_0.expires_at ==> r2 == Err::<(), TokenError>(TokenError::AlreadyUsed),
{
}

/// The attempt limit: starting from a fresh code slot, five wrong checks
/// each answer `Ok(false)`, and the sixth answers "too many attempts" and
/// removes the slot.  `states[i]` is the slot before the `i`-th check.
pub proof fn lemma_code_attempt_cap(
    states: Seq<Option<CodeData>>,
    supplied: Seq<Seq<char>>,
    results: Seq<Result<bool, CodeError>>,
    now: u64,
)
    requires
        states.len() == 7,
        supplied.len() == 6,
        results.len() == 6,
        states[0] matches Some(e) && e.attempts == 0 && now <= e.expires_at,
        forall|i: int| 0 <= i < 6 ==> #[trigger] supplied[i] != states[0]->Some_0.code,
        forall|i: int|
            0 <= i < 6 ==> check_code_post(states[i], #[trigger] states[i + 1], supplied[i], now, results[i]),
    ensures
        forall|i: int| 0 <= i < 5 ==> #[trigger] results[i] == Ok::<bool, CodeError>(false),
        results[5] == Err::<bool, CodeError>(CodeError::TooManyAttempts),
        states[6] is None,
{
    let e0 = states[0]->Some_0;
    assert forall|i: int| 0 <= i <= 5 implies #[trigger] states[i] == Some(
        CodeData { code: e0.code, expires_at: e0.expires_at, attempts: i as u32 },
    ) by {
        if i > 0 {
            assert(states[i - 1] == Some(
                CodeData {
                    code: e0.code,
                    expires_at: e0.expires_at,
                    attempts: (i - 1) as u32,
                },
            )) by {
                lemma_code_attempt_chain(states, supplied, results, now, i - 1);
            }
            assert(check_code_post(states[i - 1], states[i], supplied[i - 1], now, results[i - 1]));
        }
    }
    assert(check_code_post(states[5], states[6], supplied[5], now, results[5]));
    assert forall|i: int| 0 <= i < 5 implies #[trigger] results[i] == Ok::<bool, CodeError>(
        false,
    ) by {
        assert(check_code_post(states[i], states[i + 1], supplied[i], now, results[i]));
    }
}

/// After `n` wrong checks the slot holds `n` counted attempts.
proof fn lemma_code_attempt_chain(
    states: Seq<Option<CodeData>>,
    supplied: Seq<Seq<char>>,
    results: Seq<Result<bool, CodeError>>,
    now: u64,
    n: int,
)
    requires
        states.len() == 7,
        supplied.len() == 6,
        results.len() == 6,
        0 <= n <= 5,
        states[0] matches Some(e) && e.attempts == 0 && now <= e.expires_at,
        forall|i: int| 0 <= i < 6 ==> #[trigger] supplied[i] != states[0]->Some_0.code,
        forall|i: int|
            0 <= i < 6 ==> check_code_post(states[i], #[trigger] states[i + 1], supplied[i], now, results[i]),
    ensures
        states[n] == Some(
            CodeData {
                code: states[0]->Some_0.code,
                expires_at: states[0]->Some_0.expires_at,
                attempts: n as u32,
            },
        ),
    decreases n,
{
    let e0 = states[0]->Some_0;
    if n == 0 {
        assert(states[0] == Some(
            CodeData { code: e0.code, expires_at: e0.expires_at, attempts: 0u32 },
        ));
    } else {
        lemma_code_attempt_chain(states, supplied, results, now, n - 1);
        assert(check_code_post(states[n - 1], states[n], supplied[n - 1], now, results[n - 1]));
    }
}


impl Default for VerificationStore {
    /// Creates an empty store.
    fn default() -> (r: Self)
        ensures
            r.wf(),
            forall|em: Seq<char>, p: VerificationPurpose| #[trigger] r.spec_code(em, p) is None,
            forall|t: Seq<char>| #[trigger] r.spec_token(t) is None,
    {
        VerificationStore::new()
    }
}

} // verus!
