//! The authentication service: orchestrates the credential codec, password
//! hasher, verification store, revocation index, rate limiters and user
//! store into the login, logout, refresh, registration and password-reset
//! flows.  Time is passed in by the caller; randomness and cryptography
//! come in through the trusted items of the components.

use vstd::prelude::*;
use vstd::string::*;
use vstd::utf8::encode_utf8;
use crate::bytes::ascii_chars;
use crate::claims::TokenType;
use crate::errors::AppError;
use crate::hasher::{digest_matches, hash_password};
use crate::rate_limiter::{AuthRateLimiter, EmailRateLimiter, charge_step};
use crate::requests::{UserCreateRequest, UserUpdateRequest};
use crate::revocation::{RevocationEntry, RevocationIndex};
use crate::token::{issued_claim, spec_token, spec_decode_token, jti_wf, time_in_range, ttl_of,
    issue_access_token, issue_refresh_token, issue_registration_token, issue_password_reset_token,
    validate_registration_token, validate_password_reset_token, decode_and_verify,
    lemma_decode_fields_safe, lemma_user_id_json_safe, lemma_email_json_safe, default_roles,
    default_role_set};
use crate::user_store::{UserStore, UserResponse, response_matches};
use crate::validate::{validate_email_format, validate_user_id_format, validate_password_format,
    validate_display_name_format, valid_email_bytes, valid_user_id_bytes, valid_password_len,
    valid_display_name_len};
use crate::verification_store::{VerificationStore, VerificationPurpose, CodeData, TokenData,
    CodeError, TokenError};

verus! {

/// Relies on `rand::random` (the thread-local generator): the value is
/// random, so nothing is assumed of it.
pub assume_specification<T>[ rand::random::<T> ]() -> (r: T)
    where
        rand::distributions::Standard: rand::distributions::Distribution<T>,
;

/// A six-character string of decimal digits.
pub open spec fn code_digits(s: Seq<char>) -> bool {
    s.len() == 6 && forall|i: int| 0 <= i < s.len() ==> '0' <= #[trigger] s[i] <= '9'
}

/// Draws a fresh six-digit verification code.  The reduction of a 32-bit
/// draw modulo one million carries a bias below one part in four thousand.
fn fresh_code() -> (r: String)
    ensures
        code_digits(r@),
{
    let n: u32 = rand::random::<u32>();
    let v = n % 1000000;
    let mut bytes: Vec<u8> = Vec::new();
    bytes.push(48 + (v / 100000 % 10) as u8);
    bytes.push(48 + (v / 10000 % 10) as u8);
    bytes.push(48 + (v / 1000 % 10) as u8);
    bytes.push(48 + (v / 100 % 10) as u8);
    bytes.push(48 + (v / 10 % 10) as u8);
    bytes.push(48 + (v % 10) as u8);
    ascii_bytes_to_string_local(bytes)
}

fn ascii_bytes_to_string_local(v: Vec<u8>) -> (r: String)
    requires
        forall|i: int| 0 <= i < v@.len() ==> v@[i] < 128,
    ensures
        r@ == ascii_chars(v@),
{
    crate::bytes::ascii_bytes_to_string(v)
}

/// A verification mail waiting to be handed to the transport.
pub struct VerificationMail {
    pub email: String,
    pub code: String,
    pub purpose: VerificationPurpose,
}

/// The authentication service, owning the process-wide shared state.
pub struct AuthService {
    users: UserStore,
    verification_store: VerificationStore,
    revocations: RevocationIndex,
    mail_limiter: EmailRateLimiter,
    auth_limiter: AuthRateLimiter,
    jwt_secret: String,
}

/// Neither user lookup function changed.
pub open spec fn users_unchanged(a: &AuthService, b: &AuthService) -> bool {
    &&& forall|k: Seq<char>| #![trigger b.users_view().spec_by_id(k)]
        b.users_view().spec_by_id(k) == a.users_view().spec_by_id(k)
    &&& forall|k: Seq<char>| #![trigger b.users_view().spec_by_email(k)]
        b.users_view().spec_by_email(k) == a.users_view().spec_by_email(k)
}

/// No pending code or stored intermediate token changed.
pub open spec fn verif_unchanged(a: &AuthService, b: &AuthService) -> bool {
    &&& forall|em: Seq<char>, p: VerificationPurpose| #![trigger b.store_view().spec_code(em, p)]
        b.store_view().spec_code(em, p) == a.store_view().spec_code(em, p)
    &&& forall|t: Seq<char>| #![trigger b.store_view().spec_token(t)]
        b.store_view().spec_token(t) == a.store_view().spec_token(t)
}

/// No revocation record changed.
pub open spec fn revocations_unchanged(a: &AuthService, b: &AuthService) -> bool {
    forall|j: Seq<char>| #![trigger b.revs_view().spec_entry(j)]
        b.revs_view().spec_entry(j) == a.revs_view().spec_entry(j)
}

/// No mail-send bucket changed.
pub open spec fn mail_limiter_unchanged(a: &AuthService, b: &AuthService) -> bool {
    &&& forall|k: Seq<char>| #![trigger b.maillim_view().email_bucket(k)]
        b.maillim_view().email_bucket(k) == a.maillim_view().email_bucket(k)
    &&& forall|k: Seq<char>| #![trigger b.maillim_view().ip_bucket(k)]
        b.maillim_view().ip_bucket(k) == a.maillim_view().ip_bucket(k)
}

/// No authentication bucket changed.
pub open spec fn auth_limiter_unchanged(a: &AuthService, b: &AuthService) -> bool {
    &&& forall|k: Seq<char>| #![trigger b.authlim_view().ip_bucket(k)]
        b.authlim_view().ip_bucket(k) == a.authlim_view().ip_bucket(k)
    &&& forall|k: Seq<char>| #![trigger b.authlim_view().user_bucket(k)]
        b.authlim_view().user_bucket(k) == a.authlim_view().user_bucket(k)
}

/// The per-IP authentication bucket of `ip` was charged once; no other.
pub open spec fn auth_ip_charged(a: &AuthService, b: &AuthService, ip: Seq<char>, now: u64) -> bool {
    &&& b.authlim_view().ip_bucket(ip) == charge_step(
        a.authlim_view().ip_bucket(ip),
        30,
        3600,
        now,
    ).0
    &&& forall|k: Seq<char>|
        k != ip ==> #[trigger] b.authlim_view().ip_bucket(k) == a.authlim_view().ip_bucket(k)
}

/// The per-user authentication bucket of `u` was charged once; no other.
pub open spec fn auth_user_charged(a: &AuthService, b: &AuthService, u: Seq<char>, now: u64) -> bool {
    &&& b.authlim_view().user_bucket(u) == charge_step(
        a.authlim_view().user_bucket(u),
        5,
        60,
        now,
    ).0
    &&& forall|k: Seq<char>|
        k != u ==> #[trigger] b.authlim_view().user_bucket(k) == a.authlim_view().user_bucket(k)
}

/// No per-user authentication bucket changed.
pub open spec fn auth_user_same(a: &AuthService, b: &AuthService) -> bool {
    forall|k: Seq<char>| #![trigger b.authlim_view().user_bucket(k)]
        b.authlim_view().user_bucket(k) == a.authlim_view().user_bucket(k)
}

/// The per-email mail bucket of `em` was charged once; no other.
pub open spec fn mail_email_charged(a: &AuthService, b: &AuthService, em: Seq<char>, now: u64) -> bool {
    &&& b.maillim_view().email_bucket(em) == charge_step(
        a.maillim_view().email_bucket(em),
        3,
        900,
        now,
    ).0
    &&& forall|k: Seq<char>|
        k != em ==> #[trigger] b.maillim_view().email_bucket(k) == a.maillim_view().email_bucket(k)
}

/// The per-IP mail bucket of `ip` was charged once; no other.
pub open spec fn mail_ip_charged(a: &AuthService, b: &AuthService, ip: Seq<char>, now: u64) -> bool {
    &&& b.maillim_view().ip_bucket(ip) == charge_step(
        a.maillim_view().ip_bucket(ip),
        5,
        3600,
        now,
    ).0
    &&& forall|k: Seq<char>|
        k != ip ==> #[trigger] b.maillim_view().ip_bucket(k) == a.maillim_view().ip_bucket(k)
}

/// No per-IP mail bucket changed.
pub open spec fn mail_ip_same(a: &AuthService, b: &AuthService) -> bool {
    forall|k: Seq<char>| #![trigger b.maillim_view().ip_bucket(k)]
        b.maillim_view().ip_bucket(k) == a.maillim_view().ip_bucket(k)
}

/// A fresh session-credential pair for `user_id`: an Access credential
/// carrying the default role set and a Refresh credential, both issued at
/// `now` under `secret`.
pub open spec fn session_tokens_ok(
    access: Seq<char>,
    refresh: Seq<char>,
    user_id: Seq<char>,
    now: u64,
    secret: Seq<char>,
) -> bool {
    &&& exists|j: Seq<u8>|
        #[trigger] jti_wf(j) && encode_utf8(access) == spec_token(
            issued_claim(
                TokenType::Access,
                encode_utf8(user_id),
                Some(default_roles()),
                now,
                j,
            ),
            encode_utf8(secret),
        )
    &&& exists|j: Seq<u8>|
        #[trigger] jti_wf(j) && encode_utf8(refresh) == spec_token(
            issued_claim(TokenType::Refresh, encode_utf8(user_id), None, now, j),
            encode_utf8(secret),
        )
}

impl AuthService {
    pub closed spec fn users_view(&self) -> &UserStore {
        &self.users
    }

    pub closed spec fn store_view(&self) -> &VerificationStore {
        &self.verification_store
    }

    pub closed spec fn revs_view(&self) -> &RevocationIndex {
        &self.revocations
    }

    pub closed spec fn maillim_view(&self) -> &EmailRateLimiter {
        &self.mail_limiter
    }

    pub closed spec fn authlim_view(&self) -> &AuthRateLimiter {
        &self.auth_limiter
    }

    /// The signing secret, as characters.
    pub closed spec fn secret_chars(&self) -> Seq<char> {
        self.jwt_secret@
    }

    /// Every stored user id is in the valid format (so in particular it
    /// embeds safely in a credential payload), and all components are well
    /// formed.
    pub open spec fn wf(&self) -> bool {
        &&& self.users_view().wf()
        &&& self.store_view().wf()
        &&& self.revs_view().wf()
        &&& self.maillim_view().wf()
        &&& self.authlim_view().wf()
        &&& forall|k: Seq<char>| #![trigger self.users_view().spec_by_id(k)]
            self.users_view().spec_by_id(k) matches Some(u) ==> valid_user_id_bytes(
                encode_utf8(u.user_id),
            )
    }

    /// Creates a service around empty stores and the given signing secret.
    pub fn new(jwt_secret: String) -> (r: Self)
        ensures
            r.wf(),
            r.secret_chars() == jwt_secret@,
            forall|k: Seq<char>| #![trigger r.users_view().spec_by_id(k)]
                r.users_view().spec_by_id(k) is None,
            forall|k: Seq<char>| #![trigger r.users_view().spec_by_email(k)]
                r.users_view().spec_by_email(k) is None,
            forall|em: Seq<char>, p: VerificationPurpose| #![trigger r.store_view().spec_code(em, p)]
                r.store_view().spec_code(em, p) is None,
            forall|t: Seq<char>| #![trigger r.store_view().spec_token(t)]
                r.store_view().spec_token(t) is None,
            forall|j: Seq<char>| !(#[trigger] r.revs_view().spec_is_revoked(j)),
    {
        AuthService {
            users: UserStore::new(),
            verification_store: VerificationStore::new(),
            revocations: RevocationIndex::new(),
            mail_limiter: EmailRateLimiter::new(),
            auth_limiter: AuthRateLimiter::new(),
            jwt_secret,
        }
    }

    /// The signing secret.
    pub fn get_secret(&self) -> (r: &str)
        ensures
            r@ == self.secret_chars(),
    {
        self.jwt_secret.as_str()
    }

    /// Logs a user in: charges the authentication limiter per IP and per
    /// email, then authenticates against the stored digest; missing users,
    /// wrong passwords and inactive accounts all answer with the same
    /// uniform message, so nothing leaks about which check failed.  On
    /// success returns fresh Access and Refresh credentials and the user's
    /// public view.
    pub fn login(&mut self, email: &str, password: &str, client_ip: &str, now: u64) -> (r: Result<
        (String, String, UserResponse),
        AppError,
    >)
        requires
            old(self).wf(),
            time_in_range(now),
        ensures
            final(self).wf(),
            final(self).secret_chars() == old(self).secret_chars(),
            users_unchanged(old(self), final(self)),
            verif_unchanged(old(self), final(self)),
            revocations_unchanged(old(self), final(self)),
            mail_limiter_unchanged(old(self), final(self)),
            auth_ip_charged(old(self), final(self), client_ip@, now),
            ({
                let ok_ip = charge_step(
                    old(self).authlim_view().ip_bucket(client_ip@),
                    30,
                    3600,
                    now,
                ).1;
                let ok_user = charge_step(
                    old(self).authlim_view().user_bucket(email@),
                    5,
                    60,
                    now,
                ).1;
                &&& (!ok_ip ==> auth_user_same(old(self), final(self)) && (r matches Err(e) && e
                    is TooManyRequests))
                &&& (ok_ip ==> auth_user_charged(old(self), final(self), email@, now))
                &&& (ok_ip && !ok_user ==> (r matches Err(e) && e is TooManyRequests))
                &&& (ok_ip && ok_user ==> match old(self).users_view().spec_by_email(email@) {
                    None => r matches Err(e) && e is AuthenticationError && e.spec_message()
                        == "Invalid email or password"@,
                    Some(u) => if !digest_matches(password@, u.password_digest) {
                        r matches Err(e) && e is AuthenticationError && e.spec_message()
                            == "Invalid email or password"@
                    } else if !u.active {
                        r matches Err(e) && e is AuthenticationError && e.spec_message()
                            == "Invalid email or password"@
                    } else {
                        r matches Ok(t) && response_matches(t.2, u) && session_tokens_ok(
                            t.0@,
                            t.1@,
                            u.user_id,
                            now,
                            old(self).secret_chars(),
                        )
                    },
                })
            }),
    {
        if let Err(m) = self.auth_limiter.check_ip_limit(client_ip, now) {
            return Err(AppError::TooManyRequests(m));
        }
        if let Err(m) = self.auth_limiter.check_user_limit(email, now) {
            return Err(AppError::TooManyRequests(m));
        }
        let user = match self.users.find_user_by_email(email) {
            Some(u) => u,
            None => {
                return Err(AppError::AuthenticationError("Invalid email or password".to_owned()));
            },
        };
        if !self.users.check_password(email, password) {
            return Err(AppError::AuthenticationError("Invalid email or password".to_owned()));
        }
        if !user.is_active {
            // deliberately the same message: no account-state leak.
            return Err(AppError::AuthenticationError("Invalid email or password".to_owned()));
        }
        proof {
            self.users.lemma_email_then_id(email@);
            lemma_user_id_json_safe(encode_utf8(user.user_id@));
        }
        let access = match issue_access_token(
            user.user_id.as_str(),
            default_role_set(),
            self.jwt_secret.as_str(),
            now,
        ) {
            Ok(t) => t,
            Err(e) => {
                return Err(e);
            },
        };
        let refresh = match issue_refresh_token(user.user_id.as_str(), self.jwt_secret.as_str(), now) {
            Ok(t) => t,
            Err(e) => {
                return Err(e);
            },
        };
        Ok((access, refresh, user))
    }

    /// Logs out: each presented credential that still decodes has its id
    /// inserted into the revocation index with the credential's own expiry.
    /// Invalid or missing credentials are ignored; logout never fails.
    pub fn logout(&mut self, access: Option<&str>, refresh: Option<&str>, now: u64) -> (r: Result<
        (),
        AppError,
    >)
        requires
            old(self).wf(),
        ensures
            final(self).wf(),
            final(self).secret_chars() == old(self).secret_chars(),
            users_unchanged(old(self), final(self)),
            verif_unchanged(old(self), final(self)),
            mail_limiter_unchanged(old(self), final(self)),
            auth_limiter_unchanged(old(self), final(self)),
            r is Ok,
            ({
                let s = encode_utf8(old(self).secret_chars());
                &&& (match access {
                    Some(t) => spec_decode_token(t.spec_bytes(), s, now) matches Some(cd)
                        ==> final(self).revs_view().spec_is_revoked(ascii_chars(cd.jti)) && (
                    !revoked_key_of(refresh, s, now, ascii_chars(cd.jti)) ==> final(self).revs_view().spec_entry(ascii_chars(cd.jti)) == Some(
                        RevocationEntry { expires_at: cd.exp, revoked_at: now },
                    )),
                    None => true,
                })
                &&& (match refresh {
                    Some(t) => spec_decode_token(t.spec_bytes(), s, now) matches Some(cd)
                        ==> final(self).revs_view().spec_entry(ascii_chars(cd.jti)) == Some(
                        RevocationEntry { expires_at: cd.exp, revoked_at: now },
                    ),
                    None => true,
                })
                &&& forall|j: Seq<char>|
                    !revoked_key_of(access, s, now, j) && !revoked_key_of(refresh, s, now, j)
                        ==> #[trigger] final(self).revs_view().spec_entry(j) == old(self).revs_view().spec_entry(j)
            }),
    {
        if let Some(t) = access {
            self.revoke_if_valid(t, now);
        }
        if let Some(t) = refresh {
            self.revoke_if_valid(t, now);
        }
        Ok(())
    }

    /// Decodes a credential and, when it is valid, revokes its id with the
    /// credential's own expiry.
    fn revoke_if_valid(&mut self, token: &str, now: u64)
        requires
            old(self).wf(),
        ensures
            final(self).wf(),
            final(self).secret_chars() == old(self).secret_chars(),
            users_unchanged(old(self), final(self)),
            verif_unchanged(old(self), final(self)),
            mail_limiter_unchanged(old(self), final(self)),
            auth_limiter_unchanged(old(self), final(self)),
            ({
                let s = encode_utf8(old(self).secret_chars());
                match spec_decode_token(token.spec_bytes(), s, now) {
                    Some(cd) => final(self).revs_view().spec_entry(ascii_chars(cd.jti)) == Some(
                        RevocationEntry { expires_at: cd.exp, revoked_at: now },
                    ) && forall|j: Seq<char>|
                        j != ascii_chars(cd.jti) ==> #[trigger] final(self).revs_view().spec_entry(
                            j,
                        ) == old(self).revs_view().spec_entry(j),
                    None => revocations_unchanged(old(self), final(self)),
                }
            }),
    {
        let claim = match decode_and_verify(token, self.jwt_secret.as_str(), now) {
            Ok(c) => c,
            Err(_) => {
                return ;
            },
        };
        proof {
            lemma_decode_fields_safe(
                token.spec_bytes(),
                encode_utf8(self.jwt_secret@),
                now,
            );
        }
        let jti = crate::bytes::ascii_bytes_to_string(claim.jti);
        self.revocations.revoke(jti.as_str(), claim.exp, now);
    }

    /// Whether a credential id has been revoked.
    pub fn is_token_revoked(&self, jti: &str) -> (r: bool)
        ensures
            r == self.revs_view().spec_is_revoked(jti@),
    {
        self.revocations.is_revoked(jti)
    }

    /// Refreshes a session: charges the authentication limiter per IP, then
    /// decodes the presented refresh credential, rejects revoked ids,
    /// charges per user, and issues a fresh Access credential.  The refresh
    /// credential itself is not rotated.
    #[verifier::rlimit(100)]
    pub fn refresh_access_token(&mut self, refresh_token: &str, client_ip: &str, now: u64) -> (r:
        Result<String, AppError>)
        requires
            old(self).wf(),
            time_in_range(now),
        ensures
            final(self).wf(),
            final(self).secret_chars() == old(self).secret_chars(),
            users_unchanged(old(self), final(self)),
            verif_unchanged(old(self), final(self)),
            revocations_unchanged(old(self), final(self)),
            mail_limiter_unchanged(old(self), final(self)),
            auth_ip_charged(old(self), final(self), client_ip@, now),
            ({
                let s = encode_utf8(old(self).secret_chars());
                let ok_ip = charge_step(
                    old(self).authlim_view().ip_bucket(client_ip@),
                    30,
                    3600,
                    now,
                ).1;
                &&& (!ok_ip ==> auth_user_same(old(self), final(self)) && (r matches Err(e) && e
                    is TooManyRequests))
                &&& (ok_ip ==> match spec_decode_token(refresh_token.spec_bytes(), s, now) {
                    None => auth_user_same(old(self), final(self)) && (r matches Err(e) && e
                        is AuthenticationError),
                    Some(cd) => if cd.typ != TokenType::Refresh {
                        auth_user_same(old(self), final(self)) && (r matches Err(e) && e
                            is ValidationError)
                    } else if old(self).revs_view().spec_is_revoked(ascii_chars(cd.jti)) {
                        auth_user_same(old(self), final(self)) && (r matches Err(e) && e
                            is AuthenticationError)
                    } else {
                        let uid = ascii_chars(cd.sub);
                        let ok_user = charge_step(
                            old(self).authlim_view().user_bucket(uid),
                            5,
                            60,
                            now,
                        ).1;
                        &&& auth_user_charged(old(self), final(self), uid, now)
                        &&& (!ok_user ==> (r matches Err(e) && e is TooManyRequests))
                        &&& (ok_user ==> match old(self).users_view().spec_by_id(uid) {
                            None => r matches Err(e) && e is AuthenticationError,
                            Some(u) => if !u.active {
                                r matches Err(e) && e is AuthenticationError
                            } else {
                                r matches Ok(t) && exists|j: Seq<u8>|
                                    #[trigger] jti_wf(j) && encode_utf8(t@) == spec_token(
                                        issued_claim(
                                            TokenType::Access,
                                            encode_utf8(uid),
                                            Some(default_roles()),
                                            now,
                                            j,
                                        ),
                                        s,
                                    )
                            },
                        })
                    },
                })
            }),
    {
        if let Err(m) = self.auth_limiter.check_ip_limit(client_ip, now) {
            return Err(AppError::TooManyRequests(m));
        }
        let claim = match decode_and_verify(refresh_token, self.jwt_secret.as_str(), now) {
            Ok(c) => c,
            Err(e) => {
                return Err(e);
            },
        };
        if claim.typ != TokenType::Refresh {
            return Err(AppError::ValidationError("credential purpose is not Refresh".to_owned()));
        }
        proof {
            lemma_decode_fields_safe(
                refresh_token.spec_bytes(),
                encode_utf8(self.jwt_secret@),
                now,
            );
        }
        let jti = crate::bytes::ascii_bytes_to_string(claim.jti);
        if self.revocations.is_revoked(jti.as_str()) {
            return Err(AppError::AuthenticationError("Token has been revoked".to_owned()));
        }
        let user_id = crate::bytes::ascii_bytes_to_string(claim.sub);
        if let Err(m) = self.auth_limiter.check_user_limit(user_id.as_str(), now) {
            return Err(AppError::TooManyRequests(m));
        }
        let user = match self.users.find_user_by_id(user_id.as_str()) {
            Some(u) => u,
            None => {
                return Err(AppError::AuthenticationError("User not found".to_owned()));
            },
        };
        if !user.is_active {
            return Err(AppError::AuthenticationError("Account is deactivated".to_owned()));
        }
        match issue_access_token(
            user_id.as_str(),
            default_role_set(),
            self.jwt_secret.as_str(),
            now,
        ) {
            Ok(t) => Ok(t),
            Err(e) => Err(e),
        }
    }
}


/// What sending a verification code does: both mail buckets are charged in
/// order (email first, then IP when one is given); then the user-existence
/// rule of the workflow is enforced; then a fresh six-digit code is stored
/// for `(email, purpose)` for fifteen minutes and returned for delivery.
pub open spec fn send_code_post(
    a: &AuthService,
    b: &AuthService,
    email: Seq<char>,
    purpose: VerificationPurpose,
    client_ip: Option<Seq<char>>,
    require_user: bool,
    now: u64,
    r: Result<VerificationMail, AppError>,
) -> bool {
    let ok_em = charge_step(a.maillim_view().email_bucket(email), 3, 900, now).1;
    let ok_ip = match client_ip {
        Some(ip) => charge_step(a.maillim_view().ip_bucket(ip), 5, 3600, now).1,
        None => true,
    };
    let exists_u = a.users_view().spec_by_email(email) is Some;
    &&& mail_email_charged(a, b, email, now)
    &&& (!ok_em ==> mail_ip_same(a, b) && (r matches Err(e) && e is TooManyRequests)
        && verif_unchanged(a, b))
    &&& (ok_em ==> match client_ip {
        Some(ip) => mail_ip_charged(a, b, ip, now),
        None => mail_ip_same(a, b),
    })
    &&& (ok_em && !ok_ip ==> (r matches Err(e) && e is TooManyRequests) && verif_unchanged(a, b))
    &&& (ok_em && ok_ip ==> {
        if require_user && !exists_u {
            (r matches Err(e) && e is NotFound) && verif_unchanged(a, b)
        } else if !require_user && exists_u {
            (r matches Err(e) && e is ValidationError) && verif_unchanged(a, b)
        } else {
            &&& r matches Ok(m) && m.email@ == email && m.purpose == purpose && code_digits(
                m.code@,
            ) && b.store_view().spec_code(email, purpose) == Some(
                CodeData { code: m.code@, expires_at: (now + 900) as u64, attempts: 0 },
            )
            &&& forall|em2: Seq<char>, p2: VerificationPurpose|
                !(em2 == email && p2 == purpose) ==> #[trigger] b.store_view().spec_code(em2, p2)
                    == a.store_view().spec_code(em2, p2)
            &&& forall|t: Seq<char>| #![trigger b.store_view().spec_token(t)]
                b.store_view().spec_token(t) == a.store_view().spec_token(t)
        }
    })
}

impl AuthService {
    /// Charges the mail-send limiters, enforces the workflow's
    /// user-existence rule, and stores a fresh code for delivery.
    fn send_verification_code_internal(
        &mut self,
        email: &str,
        purpose: VerificationPurpose,
        client_ip: Option<&str>,
        require_user: bool,
        now: u64,
    ) -> (r: Result<VerificationMail, AppError>)
        requires
            old(self).wf(),
            valid_email_bytes(email.spec_bytes()),
            now + 900 <= u64::MAX,
        ensures
            final(self).wf(),
            final(self).secret_chars() == old(self).secret_chars(),
            users_unchanged(old(self), final(self)),
            revocations_unchanged(old(self), final(self)),
            auth_limiter_unchanged(old(self), final(self)),
            send_code_post(
                old(self),
                final(self),
                email@,
                purpose,
                match client_ip {
                    Some(ip) => Some(ip@),
                    None => None,
                },
                require_user,
                now,
                r,
            ),
    {
        if let Err(m) = self.mail_limiter.check_email_limit(email, now) {
            return Err(AppError::TooManyRequests(m));
        }
        if let Some(ip) = client_ip {
            if let Err(m) = self.mail_limiter.check_ip_limit(ip, now) {
                return Err(AppError::TooManyRequests(m));
            }
        }
        let exists_u = match self.users.find_user_by_email(email) {
            Some(_) => true,
            None => false,
        };
        if require_user && !exists_u {
            return Err(AppError::NotFound("User not found".to_owned()));
        }
        if !require_user && exists_u {
            return Err(AppError::ValidationError("Email address is already in use".to_owned()));
        }
        let code = fresh_code();
        let code_copy = code.as_str().to_owned();
        self.verification_store.store_verification_code(email.to_owned(), code_copy, purpose, now);
        Ok(VerificationMail { email: email.to_owned(), code, purpose })
    }

    /// Starts registration: validates the email format, then sends a
    /// verification code under the rule that no user may hold the email.
    pub fn start_registration(&mut self, email: &str, client_ip: Option<&str>, now: u64) -> (r:
        Result<VerificationMail, AppError>)
        requires
            old(self).wf(),
            time_in_range(now),
        ensures
            final(self).wf(),
            final(self).secret_chars() == old(self).secret_chars(),
            users_unchanged(old(self), final(self)),
            revocations_unchanged(old(self), final(self)),
            auth_limiter_unchanged(old(self), final(self)),
            !valid_email_bytes(email.spec_bytes()) ==> (r matches Err(e) && e is ValidationError)
                && verif_unchanged(old(self), final(self)) && mail_limiter_unchanged(
                old(self),
                final(self),
            ),
            valid_email_bytes(email.spec_bytes()) ==> send_code_post(
                old(self),
                final(self),
                email@,
                VerificationPurpose::Registration,
                match client_ip {
                    Some(ip) => Some(ip@),
                    None => None,
                },
                false,
                now,
                r,
            ),
    {
        if let Err(e) = validate_email_format(email) {
            return Err(e);
        }
        proof {
            reveal_with_fuel(crate::decimal::pow10, 20);
        }
        self.send_verification_code_internal(
            email,
            VerificationPurpose::Registration,
            client_ip,
            false,
            now,
        )
    }

    /// Starts a password reset: validates the email format, then sends a
    /// reset code under the rule that a user must hold the email.
    pub fn forgot_password(&mut self, email: &str, client_ip: Option<&str>, now: u64) -> (r: Result<
        VerificationMail,
        AppError,
    >)
        requires
            old(self).wf(),
            time_in_range(now),
        ensures
            final(self).wf(),
            final(self).secret_chars() == old(self).secret_chars(),
            users_unchanged(old(self), final(self)),
            revocations_unchanged(old(self), final(self)),
            auth_limiter_unchanged(old(self), final(self)),
            !valid_email_bytes(email.spec_bytes()) ==> (r matches Err(e) && e is ValidationError)
                && verif_unchanged(old(self), final(self)) && mail_limiter_unchanged(
                old(self),
                final(self),
            ),
            valid_email_bytes(email.spec_bytes()) ==> send_code_post(
                old(self),
                final(self),
                email@,
                VerificationPurpose::PasswordReset,
                match client_ip {
                    Some(ip) => Some(ip@),
                    None => None,
                },
                true,
                now,
                r,
            ),
    {
        if let Err(e) = validate_email_format(email) {
            return Err(e);
        }
        proof {
            reveal_with_fuel(crate::decimal::pow10, 20);
        }
        self.send_verification_code_internal(
            email,
            VerificationPurpose::PasswordReset,
            client_ip,
            true,
            now,
        )
    }

    /// Checks a code and, on a match, issues an intermediate credential
    /// bound to the email, records it for single-use enforcement, and
    /// returns it.  Every structural failure is a validation error.
    fn verify_code_and_issue(
        &mut self,
        email: &str,
        code: &str,
        purpose: VerificationPurpose,
        now: u64,
    ) -> (r: Result<String, AppError>)
        requires
            old(self).wf(),
            time_in_range(now),
        ensures
            final(self).wf(),
            final(self).secret_chars() == old(self).secret_chars(),
            users_unchanged(old(self), final(self)),
            revocations_unchanged(old(self), final(self)),
            auth_limiter_unchanged(old(self), final(self)),
            mail_limiter_unchanged(old(self), final(self)),
            issue_step_post(old(self), final(self), email@, code@, purpose, now, r),
    {
        if let Err(e) = validate_email_format(email) {
            return Err(e);
        }
        let matched = match self.verification_store.verify_code(email, code, &purpose, now) {
            Ok(b) => b,
            Err(CodeError::NotFound) => {
                return Err(AppError::ValidationError("Verification code not found".to_owned()));
            },
            Err(CodeError::Expired) => {
                return Err(AppError::ValidationError("Verification code has expired".to_owned()));
            },
            Err(CodeError::TooManyAttempts) => {
                return Err(
                    AppError::ValidationError(
                        "Too many attempts. Please request a new code".to_owned(),
                    ),
                );
            },
        };
        if !matched {
            return Err(AppError::ValidationError("Verification code is invalid".to_owned()));
        }
        proof {
            lemma_email_json_safe(email.spec_bytes());
            reveal_with_fuel(crate::decimal::pow10, 20);
        }
        let token = match purpose {
            VerificationPurpose::Registration => match issue_registration_token(
                email,
                self.jwt_secret.as_str(),
                now,
            ) {
                Ok(t) => t,
                Err(e) => {
                    return Err(e);
                },
            },
            VerificationPurpose::PasswordReset => match issue_password_reset_token(
                email,
                self.jwt_secret.as_str(),
                now,
            ) {
                Ok(t) => t,
                Err(e) => {
                    return Err(e);
                },
            },
        };
        let ttl: u64 = match purpose {
            VerificationPurpose::Registration => 900,
            VerificationPurpose::PasswordReset => 1800,
        };
        let token_copy = token.as_str().to_owned();
        self.verification_store.store_registration_token(email.to_owned(), token_copy, ttl, now);
        Ok(token)
    }

    /// Step two of registration: check the code and hand out the
    /// registration credential.
    pub fn verify_email_and_issue_registration_token(
        &mut self,
        email: &str,
        code: &str,
        now: u64,
    ) -> (r: Result<String, AppError>)
        requires
            old(self).wf(),
            time_in_range(now),
        ensures
            final(self).wf(),
            final(self).secret_chars() == old(self).secret_chars(),
            users_unchanged(old(self), final(self)),
            revocations_unchanged(old(self), final(self)),
            auth_limiter_unchanged(old(self), final(self)),
            mail_limiter_unchanged(old(self), final(self)),
            issue_step_post(
                old(self),
                final(self),
                email@,
                code@,
                VerificationPurpose::Registration,
                now,
                r,
            ),
    {
        self.verify_code_and_issue(email, code, VerificationPurpose::Registration, now)
    }

    /// Step two of a password reset: check the code and hand out the reset
    /// credential.
    pub fn verify_reset_code_and_issue_reset_token(
        &mut self,
        email: &str,
        code: &str,
        now: u64,
    ) -> (r: Result<String, AppError>)
        requires
            old(self).wf(),
            time_in_range(now),
        ensures
            final(self).wf(),
            final(self).secret_chars() == old(self).secret_chars(),
            users_unchanged(old(self), final(self)),
            revocations_unchanged(old(self), final(self)),
            auth_limiter_unchanged(old(self), final(self)),
            mail_limiter_unchanged(old(self), final(self)),
            issue_step_post(
                old(self),
                final(self),
                email@,
                code@,
                VerificationPurpose::PasswordReset,
                now,
                r,
            ),
    {
        self.verify_code_and_issue(email, code, VerificationPurpose::PasswordReset, now)
    }
}

/// What the code-check step does: the slot for `(email, purpose)` steps as
/// the store's atomic check dictates; a match issues and records an
/// intermediate credential; everything else is a validation error.
pub open spec fn issue_step_post(
    a: &AuthService,
    b: &AuthService,
    email: Seq<char>,
    code: Seq<char>,
    purpose: VerificationPurpose,
    now: u64,
    r: Result<String, AppError>,
) -> bool {
    let typ = match purpose {
        VerificationPurpose::Registration => TokenType::Registration,
        VerificationPurpose::PasswordReset => TokenType::PasswordReset,
    };
    if !valid_email_bytes(encode_utf8(email)) {
        (r matches Err(e) && e is ValidationError) && verif_unchanged(a, b)
    } else {
        &&& forall|em2: Seq<char>, p2: VerificationPurpose|
            !(em2 == email && p2 == purpose) ==> #[trigger] b.store_view().spec_code(em2, p2)
                == a.store_view().spec_code(em2, p2)
        &&& match a.store_view().spec_code(email, purpose) {
            None => (r matches Err(e) && e is ValidationError) && b.store_view().spec_code(
                email,
                purpose,
            ) is None && tokens_unchanged(a, b),
            Some(e0) => if now > e0.expires_at {
                (r matches Err(e) && e is ValidationError) && b.store_view().spec_code(
                    email,
                    purpose,
                ) is None && tokens_unchanged(a, b)
            } else if e0.attempts >= 5 {
                (r matches Err(e) && e is ValidationError) && b.store_view().spec_code(
                    email,
                    purpose,
                ) is None && tokens_unchanged(a, b)
            } else if code == e0.code {
                &&& b.store_view().spec_code(email, purpose) is None
                &&& r matches Ok(tok) && (exists|j: Seq<u8>|
                    #[trigger] jti_wf(j) && encode_utf8(tok@) == spec_token(
                        issued_claim(typ, encode_utf8(email), None, now, j),
                        encode_utf8(a.secret_chars()),
                    )) && b.store_view().spec_token(tok@) == Some(
                    TokenData {
                        email: email,
                        expires_at: (now + ttl_of(typ)) as u64,
                        used: false,
                    },
                ) && forall|t2: Seq<char>|
                    t2 != tok@ ==> #[trigger] b.store_view().spec_token(t2)
                        == a.store_view().spec_token(t2)
            } else {
                &&& (r matches Err(e) && e is ValidationError)
                &&& b.store_view().spec_code(email, purpose) == Some(
                    CodeData {
                        code: e0.code,
                        expires_at: e0.expires_at,
                        attempts: (e0.attempts + 1) as u32,
                    },
                )
                &&& tokens_unchanged(a, b)
            },
        }
    }
}

/// No stored intermediate token changed.
pub open spec fn tokens_unchanged(a: &AuthService, b: &AuthService) -> bool {
    forall|t: Seq<char>| #![trigger b.store_view().spec_token(t)]
        b.store_view().spec_token(t) == a.store_view().spec_token(t)
}



/// What completing a registration does once the inputs are validated and
/// the presented credential decodes to a Registration bundle for the
/// request's email: the intermediate token is consumed (and stays consumed
/// even if a later step fails), the email's uniqueness is re-checked, the
/// user is created with a digest matching the chosen password, the token
/// record is dropped, and a fresh session pair is returned.
pub open spec fn complete_registration_ok(
    a: &AuthService,
    b: &AuthService,
    token: Seq<char>,
    user_id: Seq<char>,
    email: Seq<char>,
    display_name: Option<Seq<char>>,
    password: Seq<char>,
    now: u64,
    r: Result<(String, String, UserResponse), AppError>,
) -> bool {
    &&& (r matches Ok(t) ==> ({
        &&& b.store_view().spec_token(token) is None
        &&& b.users_view().spec_by_id(user_id) matches Some(u2) && u2.email == email
            && u2.active && u2.created_at == now && digest_matches(password, u2.password_digest)
            && (match display_name {
            Some(d) => u2.display_name == d,
            None => u2.display_name == Seq::<char>::empty(),
        })
        &&& response_matches(t.2, b.users_view().spec_by_id(user_id)->Some_0)
        &&& session_tokens_ok(t.0@, t.1@, user_id, now, a.secret_chars())
        &&& forall|k: Seq<char>|
            k != user_id ==> #[trigger] b.users_view().spec_by_id(k) == a.users_view().spec_by_id(
                k,
            )
        &&& forall|k: Seq<char>|
            k != email ==> #[trigger] b.users_view().spec_by_email(k)
                == a.users_view().spec_by_email(k)
    }))
    &&& (r matches Err(e) ==> ((e is ValidationError || e is HashingError) && users_unchanged(
        a,
        b,
    ) && (b.store_view().spec_token(token) matches Some(te2) && te2.used)))
    &&& ((a.users_view().spec_by_email(email) is Some || a.users_view().spec_by_id(user_id)
        is Some) ==> (r matches Err(e) && e is ValidationError))
    &&& ((r matches Err(e) && e is ValidationError) ==> (a.users_view().spec_by_email(email)
        is Some || a.users_view().spec_by_id(user_id) is Some))
}

impl AuthService {
    /// Completes registration: validates every field, checks the presented
    /// Registration credential against the email, consumes the intermediate
    /// token exactly once, re-checks email uniqueness, creates the user and
    /// returns a fresh session pair.  A replayed token fails as a
    /// validation error.
    #[verifier::rlimit(100)]
    pub fn complete_registration(
        &mut self,
        registration_token: &str,
        user: UserCreateRequest,
        now: u64,
    ) -> (r: Result<(String, String, UserResponse), AppError>)
        requires
            old(self).wf(),
            time_in_range(now),
        ensures
            final(self).wf(),
            final(self).secret_chars() == old(self).secret_chars(),
            revocations_unchanged(old(self), final(self)),
            auth_limiter_unchanged(old(self), final(self)),
            mail_limiter_unchanged(old(self), final(self)),
            forall|em: Seq<char>, p: VerificationPurpose|
                #![trigger final(self).store_view().spec_code(em, p)]
                final(self).store_view().spec_code(em, p) == old(self).store_view().spec_code(
                    em,
                    p,
                ),
            ({
                let s = encode_utf8(old(self).secret_chars());
                let inputs_ok = valid_email_bytes(encode_utf8(user.email@)) && valid_user_id_bytes(encode_utf8(user.user_id@)) && valid_password_len(encode_utf8(user.password@).len()) && (match user
                    .display_name {
                    Some(ref d) => valid_display_name_len(encode_utf8(d@).len()),
                    None => true,
                });
                if !inputs_ok {
                    (r matches Err(e) && e is ValidationError) && verif_unchanged(
                        old(self),
                        final(self),
                    ) && users_unchanged(old(self), final(self))
                } else {
                    match spec_decode_token(registration_token.spec_bytes(), s, now) {
                        None => (r matches Err(e) && e is AuthenticationError) && verif_unchanged(
                            old(self),
                            final(self),
                        ) && users_unchanged(old(self), final(self)),
                        Some(cd) => if cd.typ != TokenType::Registration || cd.sub
                            != encode_utf8(user.email@) {
                            (r matches Err(e) && e is ValidationError) && verif_unchanged(
                                old(self),
                                final(self),
                            ) && users_unchanged(old(self), final(self))
                        } else {
                            &&& forall|t2: Seq<char>|
                                t2 != registration_token@ ==> #[trigger] final(self).store_view().spec_token(t2) == old(self).store_view().spec_token(
                                    t2,
                                )
                            &&& match old(self).store_view().spec_token(registration_token@) {
                                Some(te) => if now > te.expires_at || te.used || te.email
                                    != user.email@ {
                                    (r matches Err(e) && e is ValidationError) && users_unchanged(
                                        old(self),
                                        final(self),
                                    )
                                } else {
                                    complete_registration_ok(
                                        old(self),
                                        final(self),
                                        registration_token@,
                                        user.user_id@,
                                        user.email@,
                                        match user.display_name {
                                            Some(ref d) => Some(d@),
                                            None => None,
                                        },
                                        user.password@,
                                        now,
                                        r,
                                    )
                                },
                                None => (r matches Err(e) && e is ValidationError)
                                    && users_unchanged(old(self), final(self)) && final(self).store_view().spec_token(registration_token@) is None,
                            }
                        },
                    }
                }
            }),
    {
        if let Err(e) = validate_email_format(user.email.as_str()) {
            return Err(e);
        }
        if let Err(e) = validate_user_id_format(user.user_id.as_str()) {
            return Err(e);
        }
        if let Err(e) = validate_password_format(user.password.as_str()) {
            return Err(e);
        }
        if let Some(ref d) = user.display_name {
            if let Err(e) = validate_display_name_format(d.as_str()) {
                return Err(e);
            }
        }
        // the signed credential must be a Registration bundle for the email.
        if let Err(e) = validate_registration_token(
            registration_token,
            user.email.as_str(),
            self.jwt_secret.as_str(),
            now,
        ) {
            return Err(e);
        }
        // single-use enforcement: consume the intermediate token.
        match self.verification_store.verify_registration_token(
            registration_token,
            user.email.as_str(),
            now,
        ) {
            Ok(()) => {},
            Err(TokenError::NotFound) => {
                return Err(
                    AppError::ValidationError("Registration token not found".to_owned()),
                );
            },
            Err(TokenError::Expired) => {
                return Err(
                    AppError::ValidationError("Registration token has expired".to_owned()),
                );
            },
            Err(TokenError::AlreadyUsed) => {
                return Err(
                    AppError::ValidationError(
                        "Registration token has already been used".to_owned(),
                    ),
                );
            },
            Err(TokenError::EmailMismatch) => {
                return Err(AppError::ValidationError("Email address does not match".to_owned()));
            },
        }
        // re-check uniqueness before the costly hash.
        if let Some(_) = self.users.find_user_by_email(user.email.as_str()) {
            return Err(AppError::ValidationError("Email address is already in use".to_owned()));
        }
        if let Some(_) = self.users.find_user_by_id(user.user_id.as_str()) {
            return Err(AppError::ValidationError("User id is already in use".to_owned()));
        }
        let digest = match hash_password(user.password.as_str()) {
            Ok(d) => d,
            Err(e) => {
                proof {
                    assert forall|k: Seq<char>| #![trigger self.users_view().spec_by_id(k)]
                        self.users_view().spec_by_id(k) == old(self).users_view().spec_by_id(
                            k,
                        ) by {}
                }
                return Err(e);
            },
        };
        let resp = match self.users.create_user(
            user.user_id.as_str().to_owned(),
            user.email.as_str().to_owned(),
            user.display_name,
            digest,
            now,
        ) {
            Ok(v) => v,
            Err(e) => {
                proof {
                    assert forall|k: Seq<char>| #![trigger self.users_view().spec_by_id(k)]
                        self.users_view().spec_by_id(k) == old(self).users_view().spec_by_id(
                            k,
                        ) by {}
                }
                return Err(e);
            },
        };
        proof {
            assert forall|k: Seq<char>| #![trigger self.users_view().spec_by_id(k)]
                self.users_view().spec_by_id(k) is Some implies valid_user_id_bytes(
                encode_utf8(self.users_view().spec_by_id(k)->Some_0.user_id),
            ) by {
                if k != user.user_id@ {
                    assert(self.users_view().spec_by_id(k) == old(self).users_view().spec_by_id(
                        k,
                    ));
                }
            }
        }
        self.verification_store.invalidate_registration_token(registration_token);
        let uid_str = user.user_id.as_str();
        proof {
            lemma_user_id_json_safe(uid_str.spec_bytes());
        }
        let access = match issue_access_token(
            uid_str,
            default_role_set(),
            self.jwt_secret.as_str(),
            now,
        ) {
            Ok(t) => t,
            Err(e) => {
                return Err(e);
            },
        };
        let refresh = match issue_refresh_token(
            user.user_id.as_str(),
            self.jwt_secret.as_str(),
            now,
        ) {
            Ok(t) => t,
            Err(e) => {
                return Err(e);
            },
        };
        Ok((access, refresh, resp))
    }

    /// Completes a password reset: validates the new password, checks the
    /// presented PasswordReset credential against the email, consumes the
    /// intermediate token exactly once, and replaces the user's digest.
    #[verifier::rlimit(100)]
    pub fn complete_password_reset(
        &mut self,
        reset_token: &str,
        email: &str,
        new_password: &str,
        now: u64,
    ) -> (r: Result<(), AppError>)
        requires
            old(self).wf(),
            time_in_range(now),
        ensures
            final(self).wf(),
            final(self).secret_chars() == old(self).secret_chars(),
            revocations_unchanged(old(self), final(self)),
            auth_limiter_unchanged(old(self), final(self)),
            mail_limiter_unchanged(old(self), final(self)),
            forall|em: Seq<char>, p: VerificationPurpose|
                #![trigger final(self).store_view().spec_code(em, p)]
                final(self).store_view().spec_code(em, p) == old(self).store_view().spec_code(
                    em,
                    p,
                ),
            ({
                let s = encode_utf8(old(self).secret_chars());
                if !valid_password_len(new_password.spec_bytes().len()) {
                    (r matches Err(e) && e is ValidationError) && verif_unchanged(
                        old(self),
                        final(self),
                    ) && users_unchanged(old(self), final(self))
                } else {
                    match spec_decode_token(reset_token.spec_bytes(), s, now) {
                        None => (r matches Err(e) && e is AuthenticationError) && verif_unchanged(
                            old(self),
                            final(self),
                        ) && users_unchanged(old(self), final(self)),
                        Some(cd) => if cd.typ != TokenType::PasswordReset || cd.sub
                            != email.spec_bytes() {
                            (r matches Err(e) && e is ValidationError) && verif_unchanged(
                                old(self),
                                final(self),
                            ) && users_unchanged(old(self), final(self))
                        } else {
                            &&& forall|t2: Seq<char>|
                                t2 != reset_token@ ==> #[trigger] final(self).store_view().spec_token(t2) == old(self).store_view().spec_token(
                                    t2,
                                )
                            &&& match old(self).store_view().spec_token(reset_token@) {
                                Some(te) => if now > te.expires_at || te.used || te.email
                                    != email@ {
                                    (r matches Err(e) && e is ValidationError) && users_unchanged(
                                        old(self),
                                        final(self),
                                    )
                                } else {
                                    &&& (r is Err ==> (final(self).store_view().spec_token(
                                        reset_token@,
                                    ) matches Some(te2) && te2.used))
                                    &&& (r is Ok ==> ({
                                        &&& final(self).store_view().spec_token(reset_token@)
                                            is None
                                        &&& old(self).users_view().spec_by_email(email@)
                                            matches Some(u0)
                                        &&& final(self).users_view().spec_by_email(email@)
                                            matches Some(u2) && digest_matches(
                                            new_password@,
                                            u2.password_digest,
                                        ) && u2.updated_at == now && u2.user_id == u0.user_id
                                            && u2.email == u0.email && u2.display_name
                                            == u0.display_name && u2.created_at == u0.created_at
                                            && u2.active == u0.active
                                        &&& forall|k: Seq<char>|
                                            k != u0.user_id ==> #[trigger] final(self).users_view().spec_by_id(k) == old(self).users_view().spec_by_id(k)
                                    }))
                                    &&& (r matches Err(e) ==> ((e is NotFound || e
                                        is HashingError) && users_unchanged(old(self), final(self))))
                                    &&& (old(self).users_view().spec_by_email(email@) is None
                                        <==> (r matches Err(e) && e is NotFound))
                                },
                                None => (r matches Err(e) && e is ValidationError)
                                    && users_unchanged(old(self), final(self)) && final(self).store_view().spec_token(reset_token@) is None,
                            }
                        },
                    }
                }
            }),
    {
        if let Err(e) = validate_password_format(new_password) {
            return Err(e);
        }
        if let Err(e) = validate_password_reset_token(
            reset_token,
            email,
            self.jwt_secret.as_str(),
            now,
        ) {
            return Err(e);
        }
        match self.verification_store.verify_registration_token(reset_token, email, now) {
            Ok(()) => {},
            Err(TokenError::NotFound) => {
                return Err(AppError::ValidationError("Reset token not found".to_owned()));
            },
            Err(TokenError::Expired) => {
                return Err(AppError::ValidationError("Reset token has expired".to_owned()));
            },
            Err(TokenError::AlreadyUsed) => {
                return Err(
                    AppError::ValidationError("Reset token has already been used".to_owned()),
                );
            },
            Err(TokenError::EmailMismatch) => {
                return Err(AppError::ValidationError("Email address does not match".to_owned()));
            },
        }
        let user = match self.users.find_user_by_email(email) {
            Some(u) => u,
            None => {
                proof {
                    assert forall|k: Seq<char>| #![trigger self.users_view().spec_by_id(k)]
                        self.users_view().spec_by_id(k) == old(self).users_view().spec_by_id(
                            k,
                        ) by {}
                }
                return Err(AppError::NotFound("User not found".to_owned()));
            },
        };
        let digest = match hash_password(new_password) {
            Ok(d) => d,
            Err(e) => {
                proof {
                    assert forall|k: Seq<char>| #![trigger self.users_view().spec_by_id(k)]
                        self.users_view().spec_by_id(k) == old(self).users_view().spec_by_id(
                            k,
                        ) by {}
                }
                return Err(e);
            },
        };
        proof {
            self.users.lemma_email_then_id(email@);
            self.users.lemma_found_keys(user.user_id@, email@);
        }
        let ghost target = user.user_id@;
        match self.users.set_password(user.user_id.as_str(), digest, now) {
            Ok(()) => {},
            Err(e) => {
                return Err(e);
            },
        }
        proof {
            assert forall|k: Seq<char>| #![trigger self.users_view().spec_by_id(k)]
                self.users_view().spec_by_id(k) is Some implies valid_user_id_bytes(
                encode_utf8(self.users_view().spec_by_id(k)->Some_0.user_id),
            ) by {
                if k != target {
                    assert(self.users_view().spec_by_id(k) == old(self).users_view().spec_by_id(
                        k,
                    ));
                }
            }
        }
        self.verification_store.invalidate_registration_token(reset_token);
        Ok(())
    }

    /// Returns the public view of a user; inactive accounts answer as
    /// unauthenticated.
    pub fn get_current_user(&self, user_id: &str) -> (r: Result<UserResponse, AppError>)
        ensures
            match self.users_view().spec_by_id(user_id@) {
                None => r matches Err(e) && e is NotFound,
                Some(u) => if !u.active {
                    r matches Err(e) && e is AuthenticationError
                } else {
                    r matches Ok(v) && response_matches(v, u)
                },
            },
    {
        let user = match self.users.find_user_by_id(user_id) {
            Some(u) => u,
            None => {
                return Err(AppError::NotFound("User not found".to_owned()));
            },
        };
        if !user.is_active {
            return Err(AppError::AuthenticationError("Account is deactivated".to_owned()));
        }
        Ok(user)
    }

    /// Updates a user's profile: validates each provided field, enforces
    /// email uniqueness excluding the user itself, hashes a new password,
    /// and applies the update in place.
    #[verifier::rlimit(100)]
    pub fn update_user(&mut self, user_id: &str, req: UserUpdateRequest, now: u64) -> (r: Result<
        UserResponse,
        AppError,
    >)
        requires
            old(self).wf(),
        ensures
            final(self).wf(),
            final(self).secret_chars() == old(self).secret_chars(),
            verif_unchanged(old(self), final(self)),
            revocations_unchanged(old(self), final(self)),
            auth_limiter_unchanged(old(self), final(self)),
            mail_limiter_unchanged(old(self), final(self)),
            r is Err ==> users_unchanged(old(self), final(self)),
            ({
                let inputs_ok = (match req.email {
                    Some(ref em) => valid_email_bytes(encode_utf8(em@)),
                    None => true,
                }) && (match req.display_name {
                    Some(ref d) => valid_display_name_len(encode_utf8(d@).len()),
                    None => true,
                }) && (match req.password {
                    Some(ref p) => valid_password_len(encode_utf8(p@).len()),
                    None => true,
                });
                let dup_email = match req.email {
                    Some(ref em) => old(self).users_view().spec_by_email(em@) matches Some(u)
                        && u.user_id != user_id@,
                    None => false,
                };
                &&& (!inputs_ok ==> (r matches Err(e) && e is ValidationError))
                &&& (inputs_ok && old(self).users_view().spec_by_id(user_id@) is None ==> (r
                    matches Err(e) && e is NotFound))
                &&& (inputs_ok && old(self).users_view().spec_by_id(user_id@) is Some && dup_email
                    ==> (r matches Err(e) && e is ValidationError))
                &&& ((r matches Err(e) && e is ValidationError) ==> (!inputs_ok || dup_email))
                &&& ((r matches Err(e) && e is NotFound) ==> old(self).users_view().spec_by_id(
                    user_id@,
                ) is None)
                &&& ((r matches Err(e) && e is HashingError) ==> req.password is Some)
                &&& (inputs_ok && old(self).users_view().spec_by_id(user_id@) is Some && !dup_email
                    && req.password is None ==> r is Ok)
                &&& (inputs_ok && old(self).users_view().spec_by_id(user_id@) is Some && !dup_email
                    ==> (r is Ok || (r matches Err(e) && e is HashingError)))
                &&& (r matches Err(e) ==> (e is ValidationError || e is NotFound || e
                    is HashingError))
                &&& (r matches Ok(v) ==> ({
                    let u0 = old(self).users_view().spec_by_id(user_id@)->Some_0;
                    &&& old(self).users_view().spec_by_id(user_id@) is Some
                    &&& final(self).users_view().spec_by_id(user_id@) matches Some(u1)
                        && response_matches(v, u1) && u1.updated_at == now && (match req.email {
                        Some(ref em) => u1.email == em@,
                        None => u1.email == u0.email,
                    }) && (match req.display_name {
                        Some(ref d) => u1.display_name == d@,
                        None => u1.display_name == u0.display_name,
                    }) && (match req.password {
                        Some(ref p) => digest_matches(p@, u1.password_digest),
                        None => u1.password_digest == u0.password_digest,
                    }) && u1.active == u0.active
                    &&& forall|k: Seq<char>|
                        k != user_id@ ==> #[trigger] final(self).users_view().spec_by_id(k) == old(self).users_view().spec_by_id(k)
                }))
            }),
    {
        if let Some(ref em) = req.email {
            if let Err(e) = validate_email_format(em.as_str()) {
                return Err(e);
            }
        }
        if let Some(ref d) = req.display_name {
            if let Err(e) = validate_display_name_format(d.as_str()) {
                return Err(e);
            }
        }
        if let Some(ref p) = req.password {
            if let Err(e) = validate_password_format(p.as_str()) {
                return Err(e);
            }
        }
        match self.users.find_user_by_id(user_id) {
            Some(_) => {},
            None => {
                return Err(AppError::NotFound("User not found".to_owned()));
            },
        }
        // a changed email held by another record is rejected before the
        // costly hash.
        if let Some(ref em) = req.email {
            if let Some(other) = self.users.find_user_by_email(em.as_str()) {
                let own: String = user_id.to_owned();
                if !(other.user_id == own) {
                    return Err(
                        AppError::ValidationError("Email address is already in use".to_owned()),
                    );
                }
            }
        }
        let digest = match req.password {
            Some(ref p) => match hash_password(p.as_str()) {
                Ok(d) => Some(d),
                Err(e) => {
                    return Err(e);
                },
            },
            None => None,
        };
        let r = self.users.update_user(user_id, req.email, req.display_name, digest, now);
        proof {
            assert forall|k: Seq<char>| #![trigger self.users_view().spec_by_id(k)]
                self.users_view().spec_by_id(k) is Some implies valid_user_id_bytes(
                encode_utf8(self.users_view().spec_by_id(k)->Some_0.user_id),
            ) by {
                if k != user_id@ {
                    assert(self.users_view().spec_by_id(k) == old(self).users_view().spec_by_id(
                        k,
                    ));
                }
            }
        }
        r
    }

    /// Soft-deletes a user: the record stays, marked inactive.
    pub fn delete_user(&mut self, user_id: &str, now: u64) -> (r: Result<(), AppError>)
        requires
            old(self).wf(),
        ensures
            final(self).wf(),
            final(self).secret_chars() == old(self).secret_chars(),
            verif_unchanged(old(self), final(self)),
            revocations_unchanged(old(self), final(self)),
            auth_limiter_unchanged(old(self), final(self)),
            mail_limiter_unchanged(old(self), final(self)),
            old(self).users_view().spec_by_id(user_id@) is None <==> r is Err,
            r matches Err(e) ==> e is NotFound,
            r is Err ==> users_unchanged(old(self), final(self)),
            r is Ok ==> ({
                &&& final(self).users_view().spec_by_id(user_id@) matches Some(u1) && !u1.active
                    && u1.updated_at == now
                &&& forall|k: Seq<char>|
                    k != user_id@ ==> #[trigger] final(self).users_view().spec_by_id(k) == old(self).users_view().spec_by_id(k)
            }),
    {
        let r = self.users.soft_delete(user_id, now);
        proof {
            assert forall|k: Seq<char>| #![trigger self.users_view().spec_by_id(k)]
                self.users_view().spec_by_id(k) is Some implies valid_user_id_bytes(
                encode_utf8(self.users_view().spec_by_id(k)->Some_0.user_id),
            ) by {
                if k != user_id@ {
                    assert(self.users_view().spec_by_id(k) == old(self).users_view().spec_by_id(
                        k,
                    ));
                }
            }
        }
        r
    }

    /// Changes a password after verifying the old one: wrong old passwords
    /// answer as unauthenticated and change nothing.
    #[verifier::rlimit(100)]
    pub fn reset_password(
        &mut self,
        user_id: &str,
        old_password: &str,
        new_password: &str,
        now: u64,
    ) -> (r: Result<(), AppError>)
        requires
            old(self).wf(),
        ensures
            final(self).wf(),
            final(self).secret_chars() == old(self).secret_chars(),
            verif_unchanged(old(self), final(self)),
            revocations_unchanged(old(self), final(self)),
            auth_limiter_unchanged(old(self), final(self)),
            mail_limiter_unchanged(old(self), final(self)),
            r is Err ==> users_unchanged(old(self), final(self)),
            ({
                if !valid_password_len(new_password.spec_bytes().len()) {
                    r matches Err(e) && e is ValidationError
                } else {
                    match old(self).users_view().spec_by_id(user_id@) {
                        None => r matches Err(e) && e is NotFound,
                        Some(u0) => if !digest_matches(old_password@, u0.password_digest) {
                            r matches Err(e) && e is AuthenticationError
                        } else {
                            &&& (r is Ok ==> (final(self).users_view().spec_by_id(user_id@)
                                matches Some(u1) && digest_matches(
                                new_password@,
                                u1.password_digest,
                            ) && u1.updated_at == now && forall|k: Seq<char>|
                                k != user_id@ ==> #[trigger] final(self).users_view().spec_by_id(k)
                                    == old(self).users_view().spec_by_id(k)))
                            &&& (r matches Err(e) ==> e is HashingError)
                        },
                    }
                }
            }),
    {
        if let Err(e) = validate_password_format(new_password) {
            return Err(e);
        }
        match self.users.find_user_by_id(user_id) {
            Some(_) => {},
            None => {
                return Err(AppError::NotFound("User not found".to_owned()));
            },
        }
        if !self.users.check_password_by_id(user_id, old_password) {
            return Err(AppError::AuthenticationError("Invalid password".to_owned()));
        }
        let digest = match hash_password(new_password) {
            Ok(d) => d,
            Err(e) => {
                return Err(e);
            },
        };
        let r = match self.users.set_password(user_id, digest, now) {
            Ok(()) => Ok(()),
            Err(e) => Err(e),
        };
        proof {
            assert forall|k: Seq<char>| #![trigger self.users_view().spec_by_id(k)]
                self.users_view().spec_by_id(k) is Some implies valid_user_id_bytes(
                encode_utf8(self.users_view().spec_by_id(k)->Some_0.user_id),
            ) by {
                if k != user_id@ {
                    assert(self.users_view().spec_by_id(k) == old(self).users_view().spec_by_id(
                        k,
                    ));
                }
            }
        }
        r
    }

    /// The number of pending codes and stored intermediate tokens.
    pub fn get_verification_stats(&self) -> (r: (usize, usize))
        requires
            self.store_view().reg_map().entries().len() + self.store_view().reset_map().entries().len()
                <= usize::MAX,
        ensures
            r.0 == self.store_view().reg_map().entries().len()
                + self.store_view().reset_map().entries().len(),
            r.1 == self.store_view().token_map().entries().len(),
    {
        self.verification_store.stats()
    }

    /// Drops expired codes, expired or used tokens, and expired revocation
    /// records; run periodically and once at startup.  Live entries are
    /// kept exactly; nothing appears that was not live before.
    pub fn cleanup_expired(&mut self, now: u64)
        requires
            old(self).wf(),
        ensures
            final(self).wf(),
            final(self).secret_chars() == old(self).secret_chars(),
            users_unchanged(old(self), final(self)),
            auth_limiter_unchanged(old(self), final(self)),
            mail_limiter_unchanged(old(self), final(self)),
            forall|em: Seq<char>, p: VerificationPurpose|
                #![trigger final(self).store_view().spec_code(em, p)]
                match old(self).store_view().spec_code(em, p) {
                    Some(e) => final(self).store_view().spec_code(em, p) == if e.expires_at
                        > now {
                        Some(e)
                    } else {
                        None::<CodeData>
                    },
                    None => final(self).store_view().spec_code(em, p) is None,
                },
            forall|t: Seq<char>|
                #![trigger final(self).store_view().spec_token(t)]
                match old(self).store_view().spec_token(t) {
                    Some(e) => final(self).store_view().spec_token(t) == if e.expires_at > now
                        && !e.used {
                        Some(e)
                    } else {
                        None::<TokenData>
                    },
                    None => final(self).store_view().spec_token(t) is None,
                },
            forall|j: Seq<char>|
                #![trigger final(self).revs_view().spec_entry(j)]
                match old(self).revs_view().spec_entry(j) {
                    Some(e) => final(self).revs_view().spec_entry(j) == if e.expires_at >= now {
                        Some(e)
                    } else {
                        None::<RevocationEntry>
                    },
                    None => final(self).revs_view().spec_entry(j) is None,
                },
    {
        self.verification_store.cleanup_expired(now);
        self.revocations.prune_expired(now);
    }
}


/// Whether `j` is the revocation key of a presented credential that decodes.
pub open spec fn revoked_key_of(t: Option<&str>, secret: Seq<u8>, now: u64, j: Seq<char>) -> bool {
    match t {
        Some(tok) => spec_decode_token(tok.spec_bytes(), secret, now) matches Some(cd) && j
            == ascii_chars(cd.jti),
        None => false,
    }
}

} // verus!
