//! Issuance and validation of signed credentials.  The wire format is
//! `base64url(header).base64url(payload).signature`, where the signature is
//! the base64url HMAC-SHA256 tag of the first two segments under a shared
//! symmetric secret.

use vstd::prelude::*;
use vstd::string::*;
use crate::b64::{spec_b64_encode, spec_b64_decode, is_b64_byte, b64_encode, b64_decode,
    lemma_encode_all_b64, lemma_b64_byte_not_delim, lemma_b64_round_trip};
use crate::bytes::{push_all, bytes_eq, ascii_bytes_to_string};
use crate::claims::{ClaimData, JwtClaim, Role, TokenType, claim_wf, json_safe, spec_payload,
    spec_parse_payload, emit_payload, parse_payload, lit_issuer, lit_issuer_vec, lit_audience, lit_audience_vec,
    lemma_payload_round_trip};
use crate::decimal::pow10;
use crate::errors::AppError;
use crate::validate::{valid_email_bytes, valid_user_id_bytes, email_split_ok, is_alpha,
    is_email_local_byte, is_email_domain_byte, is_user_id_byte};

verus! {

/// The header JSON `{"alg":"HS256","typ":"JWT"}`.
pub open spec fn lit_header_json() -> Seq<u8> {
    seq![
        123, 34, 97, 108, 103, 34, 58, 34, 72, 83, 50, 53, 54, 34, 44, 34, 116, 121, 112, 34,
        58, 34, 74, 87, 84, 34, 125,
    ]
}

/// Returns the bytes of the header JSON.
pub fn lit_header_json_vec() -> (v: Vec<u8>)
    ensures
        v@ == lit_header_json(),
{
    let mut v: Vec<u8> = Vec::new();
    v.push(123);
    v.push(34);
    v.push(97);
    v.push(108);
    v.push(103);
    v.push(34);
    v.push(58);
    v.push(34);
    v.push(72);
    v.push(83);
    v.push(50);
    v.push(53);
    v.push(54);
    v.push(34);
    v.push(44);
    v.push(34);
    v.push(116);
    v.push(121);
    v.push(112);
    v.push(34);
    v.push(58);
    v.push(34);
    v.push(74);
    v.push(87);
    v.push(84);
    v.push(34);
    v.push(125);
    proof {
        assert(v@ =~= lit_header_json());
    }
    v
}

/// What `jsonwebtoken::crypto::sign` returns for HMAC-SHA256: a function of
/// the message and the secret alone.
pub uninterp spec fn hs256_sig_of(msg: Seq<u8>, secret: Seq<u8>) -> Seq<u8>;

/// Relies on `jsonwebtoken::crypto::sign` with `Algorithm::HS256`: the call
/// re-keys the secret, computes the 32-byte HMAC-SHA256 tag of the message,
/// and returns its base64url rendering without padding (43 alphabet bytes);
/// for the HMAC algorithms the call never fails.
#[verifier::external_body]
fn hs256_sign(message: &[u8], secret: &[u8]) -> (r: Vec<u8>)
    ensures
        r@ == hs256_sig_of(message@, secret@),
        r@.len() == 43,
        forall|i: int| 0 <= i < r@.len() ==> is_b64_byte(#[trigger] r@[i]),
{
    let key = jsonwebtoken::EncodingKey::from_secret(secret);
    let sig = jsonwebtoken::crypto::sign(message, &key, jsonwebtoken::Algorithm::HS256).unwrap();
    sig.into_bytes()
}

/// A byte of a freshly drawn credential id: lowercase hex or a hyphen.
pub open spec fn is_jti_byte(b: u8) -> bool {
    (48 <= b <= 57) || (97 <= b <= 102) || b == 45
}

/// A well-formed credential id: the 36-byte hyphenated rendering.
pub open spec fn jti_wf(jti: Seq<u8>) -> bool {
    jti.len() == 36 && forall|i: int| 0 <= i < jti.len() ==> is_jti_byte(#[trigger] jti[i])
}

/// Relies on `uuid::Uuid::new_v4` and its hyphenated `Display` rendering:
/// 36 bytes of lowercase hex digits and hyphens.  The value is random, so
/// nothing more is assumed of it; two calls may differ.
#[verifier::external_body]
fn fresh_jti() -> (r: Vec<u8>)
    ensures
        jti_wf(r@),
{
    uuid::Uuid::new_v4().to_string().into_bytes()
}

/// The first two wire segments: base64url of the header and of the payload,
/// joined by a dot.  The signature is computed over exactly these bytes.
pub open spec fn spec_signing_input(c: ClaimData) -> Seq<u8> {
    spec_b64_encode(lit_header_json()) + seq![46u8] + spec_b64_encode(spec_payload(c))
}

/// The full wire form of a credential under `secret`.
pub open spec fn spec_token(c: ClaimData, secret: Seq<u8>) -> Seq<u8> {
    spec_signing_input(c) + seq![46u8] + hs256_sig_of(spec_signing_input(c), secret)
}

/// The first position at or after `pos` holding byte `b`, or the length.
pub open spec fn find_byte(s: Seq<u8>, pos: int, b: u8) -> int
    decreases s.len() - pos,
{
    if pos < 0 || pos >= s.len() {
        s.len() as int
    } else if s[pos] == b {
        pos
    } else {
        find_byte(s, pos + 1, b)
    }
}

/// `find_byte` lands on the boundary any scan finds.
pub proof fn lemma_find_byte_char(s: Seq<u8>, pos: int, e: int, b: u8)
    requires
        0 <= pos <= e <= s.len(),
        forall|i: int| pos <= i < e ==> s[i] != b,
        e == s.len() || s[e] == b,
    ensures
        find_byte(s, pos, b) == e,
    decreases e - pos,
{
    if pos < e {
        lemma_find_byte_char(s, pos + 1, e, b);
    }
}

/// Decoding and verification of a presented credential: split on the first
/// two dots, check the signature over the first two segments, insist on the
/// canonical header, decode and parse the payload, then check the audience
/// and that `now` lies in `[nbf, exp)`.  `None` is a rejection.
pub open spec fn spec_decode_token(s: Seq<u8>, secret: Seq<u8>, now: u64) -> Option<ClaimData> {
    let d1 = find_byte(s, 0, 46);
    let d2 = find_byte(s, d1 + 1, 46);
    if d1 >= s.len() || d2 >= s.len() {
        None
    } else if s.subrange(d2 + 1, s.len() as int) != hs256_sig_of(s.subrange(0, d2), secret) {
        None
    } else if s.subrange(0, d1) != spec_b64_encode(lit_header_json()) {
        None
    } else {
        match spec_b64_decode(s.subrange(d1 + 1, d2)) {
            None => None,
            Some(pl) => match spec_parse_payload(pl) {
                None => None,
                Some(cd) => if cd.aud == lit_audience() && cd.nbf <= now < cd.exp {
                    Some(cd)
                } else {
                    None
                },
            },
        }
    }
}

/// The time-to-live of each credential purpose, in seconds.
pub open spec fn ttl_of(t: TokenType) -> u64 {
    match t {
        TokenType::Refresh => 604800,
        TokenType::Access => 3600,
        TokenType::Registration => 900,
        TokenType::PasswordReset => 1800,
    }
}

/// Issue times late enough to overflow the payload's 19-digit rendering are
/// rejected; this bound is free until long past year 300 million.
pub open spec fn time_in_range(now: u64) -> bool {
    now + 604800 < pow10(19)
}

/// The claim bundle an issuance at `now` produces: fixed issuer and
/// audience, `iat = nbf = now`, expiry after the purpose's time-to-live.
pub open spec fn issued_claim(
    typ: TokenType,
    sub: Seq<u8>,
    role: Option<Seq<Role>>,
    now: u64,
    jti: Seq<u8>,
) -> ClaimData {
    ClaimData {
        iss: lit_issuer(),
        aud: lit_audience(),
        sub: sub,
        iat: now,
        nbf: now,
        exp: (now + ttl_of(typ)) as u64,
        jti: jti,
        typ: typ,
        role: role,
    }
}

/// An issued claim bundle is well formed whenever the subject is a safe
/// JSON string and the time is in range.
pub proof fn lemma_issued_claim_wf(
    typ: TokenType,
    sub: Seq<u8>,
    role: Option<Seq<Role>>,
    now: u64,
    jti: Seq<u8>,
)
    requires
        json_safe(sub),
        jti_wf(jti),
        time_in_range(now),
    ensures
        claim_wf(issued_claim(typ, sub, role, now, jti)),
        issued_claim(typ, sub, role, now, jti).nbf <= issued_claim(typ, sub, role, now, jti).iat
            < issued_claim(typ, sub, role, now, jti).exp,
        issued_claim(typ, sub, role, now, jti).exp == now + ttl_of(typ),
{
    reveal_with_fuel(pow10, 20);
    assert(pow10(19) == 10000000000000000000);
    assert(ttl_of(typ) <= 604800);
    assert(json_safe(lit_issuer())) by {
        assert forall|i: int| 0 <= i < lit_issuer().len() implies lit_issuer()[i] != 34
            && lit_issuer()[i] != 92 && #[trigger] lit_issuer()[i] < 128 by {}
    }
    assert(json_safe(lit_audience())) by {
        assert forall|i: int| 0 <= i < lit_audience().len() implies lit_audience()[i] != 34
            && lit_audience()[i] != 92 && #[trigger] lit_audience()[i] < 128 by {}
    }
    assert(json_safe(jti));
}

/// The token codec round-trips: a credential issued from a well-formed
/// bundle and decoded under the same secret, at a time inside its validity
/// window, yields exactly the bundle it was issued from.  Purpose, subject,
/// roles and expiry all carry over unchanged.
pub proof fn lemma_token_round_trip(c: ClaimData, secret: Seq<u8>, now: u64)
    requires
        claim_wf(c),
        c.aud == lit_audience(),
        c.nbf <= now < c.exp,
    ensures
        spec_decode_token(spec_token(c, secret), secret, now) == Some(c),
{
    let hseg = spec_b64_encode(lit_header_json());
    let pseg = spec_b64_encode(spec_payload(c));
    let si = spec_signing_input(c);
    let sig = hs256_sig_of(si, secret);
    let s = spec_token(c, secret);
    let hl = hseg.len() as int;
    let sl = si.len() as int;
    lemma_encode_all_b64(lit_header_json());
    lemma_encode_all_b64(spec_payload(c));
    assert(si.len() == hl + 1 + pseg.len());
    assert(s.len() == sl + 1 + sig.len());
    // the first dot separates the header segment.
    assert forall|i: int| 0 <= i < hl implies s[i] != 46 by {
        assert(s[i] == hseg[i]);
        lemma_b64_byte_not_delim(hseg[i]);
    }
    assert(s[hl] == 46);
    lemma_find_byte_char(s, 0, hl, 46);
    // the second dot separates the payload segment.
    assert forall|i: int| hl + 1 <= i < sl implies s[i] != 46 by {
        assert(s[i] == pseg[i - hl - 1]);
        lemma_b64_byte_not_delim(pseg[i - hl - 1]);
    }
    assert(s[sl] == 46);
    lemma_find_byte_char(s, hl + 1, sl, 46);
    assert(s.subrange(0, hl) =~= hseg);
    assert(s.subrange(hl + 1, sl) =~= pseg);
    assert(s.subrange(0, sl) =~= si);
    assert(s.subrange(sl + 1, s.len() as int) =~= sig);
    lemma_b64_round_trip(spec_payload(c));
    lemma_payload_round_trip(c);
}

/// What one issuance of every purpose round-trips to: decoding the freshly
/// issued credential at its issue time returns the purpose, subject, role
/// set and expiry it was issued with.
pub proof fn lemma_issue_decode_round_trip(
    typ: TokenType,
    sub: Seq<u8>,
    role: Option<Seq<Role>>,
    now: u64,
    jti: Seq<u8>,
    secret: Seq<u8>,
)
    requires
        json_safe(sub),
        jti_wf(jti),
        time_in_range(now),
    ensures
        ({
            let c = issued_claim(typ, sub, role, now, jti);
            &&& spec_decode_token(spec_token(c, secret), secret, now) == Some(c)
            &&& c.typ == typ
            &&& c.sub == sub
            &&& c.role == role
            &&& c.exp == now + ttl_of(typ)
        }),
{
    lemma_issued_claim_wf(typ, sub, role, now, jti);
    let c = issued_claim(typ, sub, role, now, jti);
    lemma_token_round_trip(c, secret, now);
}

/// A valid user id embeds in the payload unescaped.
pub proof fn lemma_user_id_json_safe(s: Seq<u8>)
    requires
        valid_user_id_bytes(s),
    ensures
        json_safe(s),
{
    assert forall|i: int| 0 <= i < s.len() implies s[i] != 34 && s[i] != 92 && #[trigger] s[i]
        < 128 by {
        assert(is_user_id_byte(s[i]));
    }
}

/// A valid email address embeds in the payload unescaped.
pub proof fn lemma_email_json_safe(s: Seq<u8>)
    requires
        valid_email_bytes(s),
    ensures
        json_safe(s),
{
    let (at, dot) = choose|at: int, dot: int| #[trigger] email_split_ok(s, at, dot);
    assert forall|i: int| 0 <= i < s.len() implies s[i] != 34 && s[i] != 92 && #[trigger] s[i]
        < 128 by {
        if i < at {
            assert(is_email_local_byte(s[i]));
        } else if i == at {
        } else if i < dot {
            assert(is_email_domain_byte(s[i]));
        } else if i == dot {
        } else {
            assert(is_alpha(s[i]));
        }
    }
}

/// The default role set attached on login, refresh and registration:
/// account deletion and password reset are never granted implicitly.
pub open spec fn default_roles() -> Seq<Role> {
    seq![Role::EditMemo, Role::ViewMemo, Role::SummarizeMemo, Role::EditTag, Role::EditAccount]
}

/// The default role set never carries `DeleteAccount` or `ResetPassword`.
pub proof fn lemma_default_roles_implicit_only()
    ensures
        !default_roles().contains(Role::DeleteAccount),
        !default_roles().contains(Role::ResetPassword),
        default_roles().len() == 5,
{
    assert forall|i: int| 0 <= i < default_roles().len() implies default_roles()[i]
        != Role::DeleteAccount && default_roles()[i] != Role::ResetPassword by {}
}

/// Returns the default role set.
pub fn default_role_set() -> (r: Vec<Role>)
    ensures
        r@ == default_roles(),
{
    let mut r: Vec<Role> = Vec::new();
    r.push(Role::EditMemo);
    r.push(Role::ViewMemo);
    r.push(Role::SummarizeMemo);
    r.push(Role::EditTag);
    r.push(Role::EditAccount);
    proof {
        assert(r@ =~= default_roles());
    }
    r
}

/// Whether a role vector holds the given role.
pub fn roles_contain(roles: &Vec<Role>, r: Role) -> (b: bool)
    ensures
        b == roles@.contains(r),
{
    let n = roles.len();
    let mut i: usize = 0;
    while i < n
        invariant
            i <= n == roles@.len(),
            forall|k: int| 0 <= k < i ==> roles@[k] != r,
        decreases n - i,
    {
        if roles[i] == r {
            return true;
        }
        i += 1;
    }
    false
}

/// Copies a byte slice into a fresh vector.
fn copy_bytes(v: &[u8]) -> (r: Vec<u8>)
    ensures
        r@ == v@,
{
    let mut r: Vec<u8> = Vec::new();
    push_all(&mut r, v);
    proof {
        assert(Seq::<u8>::empty() + v@ =~= v@);
    }
    r
}

/// Renders and signs a claim bundle.  The result is ASCII, and its bytes
/// are exactly the wire form of the bundle under the secret.
pub fn encode_token(c: &JwtClaim, secret: &str) -> (r: String)
    ensures
        vstd::utf8::encode_utf8(r@) == spec_token(c@, secret.spec_bytes()),
{
    let header = lit_header_json_vec();
    let mut tok = b64_encode(header.as_slice());
    let payload = emit_payload(c);
    let pseg = b64_encode(payload.as_slice());
    tok.push(46);
    push_all(&mut tok, pseg.as_slice());
    proof {
        assert(tok@ =~= spec_signing_input(c@));
    }
    let sig = hs256_sign(tok.as_slice(), secret.as_bytes());
    let ghost si = tok@;
    tok.push(46);
    push_all(&mut tok, sig.as_slice());
    proof {
        assert(tok@ =~= spec_token(c@, secret.spec_bytes()));
        lemma_encode_all_b64(lit_header_json());
        lemma_encode_all_b64(spec_payload(c@));
        assert forall|i: int| 0 <= i < tok@.len() implies tok@[i] < 128 by {
            if i < si.len() {
                assert(tok@[i] == si[i]);
                if i < spec_b64_encode(lit_header_json()).len() {
                    assert(si[i] == spec_b64_encode(lit_header_json())[i]);
                } else if i > spec_b64_encode(lit_header_json()).len() {
                    assert(si[i] == spec_b64_encode(spec_payload(c@))[i - spec_b64_encode(
                        lit_header_json(),
                    ).len() - 1]);
                }
            } else if i > si.len() {
                assert(tok@[i] == sig@[i - si.len() - 1]);
            }
        }
    }
    ascii_bytes_to_string(tok)
}

/// Decodes and verifies a presented credential exactly as
/// `spec_decode_token` admits; every rejection is `Unauthenticated`.
pub fn decode_and_verify(token: &str, secret: &str, now: u64) -> (r: Result<JwtClaim, AppError>)
    ensures
        match spec_decode_token(token.spec_bytes(), secret.spec_bytes(), now) {
            Some(cd) => r matches Ok(c) && c@ == cd,
            None => r matches Err(e) && e is AuthenticationError,
        },
{
    let b = token.as_bytes();
    let n = b.len();
    // find the two dots.
    let mut d1: usize = 0;
    while d1 < n && b[d1] != 46
        invariant
            d1 <= n == b@.len(),
            forall|i: int| 0 <= i < d1 ==> b@[i] != 46,
        decreases n - d1,
    {
        d1 += 1;
    }
    proof {
        lemma_find_byte_char(b@, 0, d1 as int, 46);
    }
    if d1 >= n {
        return Err(AppError::AuthenticationError("invalid credential".to_owned()));
    }
    let mut d2: usize = d1 + 1;
    while d2 < n && b[d2] != 46
        invariant
            d1 < d2 <= n == b@.len(),
            forall|i: int| d1 < i < d2 ==> b@[i] != 46,
        decreases n - d2,
    {
        d2 += 1;
    }
    proof {
        lemma_find_byte_char(b@, d1 as int + 1, d2 as int, 46);
    }
    if d2 >= n {
        return Err(AppError::AuthenticationError("invalid credential".to_owned()));
    }
    // the signature is over everything before the second dot.
    let expected = hs256_sign(&b[0..d2], secret.as_bytes());
    if !bytes_eq(&b[d2 + 1..n], expected.as_slice()) {
        return Err(AppError::AuthenticationError("invalid credential".to_owned()));
    }
    // only the canonical header is accepted.
    let header = lit_header_json_vec();
    let hseg = b64_encode(header.as_slice());
    if !bytes_eq(&b[0..d1], hseg.as_slice()) {
        return Err(AppError::AuthenticationError("invalid credential".to_owned()));
    }
    let payload = match b64_decode(&b[d1 + 1..d2]) {
        Some(p) => p,
        None => {
            return Err(AppError::AuthenticationError("invalid credential".to_owned()));
        },
    };
    let claim = match parse_payload(payload.as_slice()) {
        Some(c) => c,
        None => {
            return Err(AppError::AuthenticationError("invalid credential".to_owned()));
        },
    };
    let audv = lit_audience_vec();
    if !bytes_eq(claim.aud.as_slice(), audv.as_slice()) {
        return Err(AppError::AuthenticationError("invalid credential".to_owned()));
    }
    if !(claim.nbf <= now && now < claim.exp) {
        return Err(AppError::AuthenticationError("credential expired or not yet valid".to_owned()));
    }
    Ok(claim)
}


/// Every string field a decoded credential carries is ASCII and JSON-safe.
pub proof fn lemma_decode_fields_safe(s: Seq<u8>, secret: Seq<u8>, now: u64)
    requires
        spec_decode_token(s, secret, now) is Some,
    ensures
        json_safe(spec_decode_token(s, secret, now)->Some_0.sub),
        json_safe(spec_decode_token(s, secret, now)->Some_0.jti),
{
    let d1 = find_byte(s, 0, 46);
    let d2 = find_byte(s, d1 + 1, 46);
    let pl = spec_b64_decode(s.subrange(d1 + 1, d2))->Some_0;
    crate::claims::lemma_parse_fields_safe(pl);
}

/// Issues a session-refresh credential for a user: subject is the user id,
/// no role set, valid for seven days from `now`.  The credential id is
/// freshly drawn, so the result is stated for some well-formed id.
pub fn issue_refresh_token(user_id: &str, secret: &str, now: u64) -> (r: Result<String, AppError>)
    requires
        json_safe(user_id.spec_bytes()),
        time_in_range(now),
    ensures
        (r matches Ok(t) && exists|jti: Seq<u8>|
            #[trigger] jti_wf(jti) && vstd::utf8::encode_utf8(t@) == spec_token(
                issued_claim(TokenType::Refresh, user_id.spec_bytes(), None, now, jti),
                secret.spec_bytes(),
            )),
{
    proof {
        reveal_with_fuel(pow10, 20);
    }
    let jti = fresh_jti();
    let ghost j = jti@;
    let claim = JwtClaim {
        iss: lit_issuer_vec(),
        aud: lit_audience_vec(),
        sub: user_id.as_bytes_vec(),
        iat: now,
        nbf: now,
        exp: now + 604800,
        jti: jti,
        typ: TokenType::Refresh,
        role: None,
    };
    let t = encode_token(&claim, secret);
    proof {
        assert(claim@ == issued_claim(TokenType::Refresh, user_id.spec_bytes(), None, now, j));
        assert(jti_wf(j) && vstd::utf8::encode_utf8(t@) == spec_token(
            issued_claim(TokenType::Refresh, user_id.spec_bytes(), None, now, j),
            secret.spec_bytes(),
        ));
    }
    Ok(t)
}

/// Issues a session-access credential: subject is the user id, the given
/// non-empty role set is attached, valid for one hour from `now`.
pub fn issue_access_token(user_id: &str, roles: Vec<Role>, secret: &str, now: u64) -> (r: Result<
    String,
    AppError,
>)
    requires
        json_safe(user_id.spec_bytes()),
        roles@.len() > 0,
        time_in_range(now),
    ensures
        (r matches Ok(t) && exists|jti: Seq<u8>|
            #[trigger] jti_wf(jti) && vstd::utf8::encode_utf8(t@) == spec_token(
                issued_claim(TokenType::Access, user_id.spec_bytes(), Some(roles@), now, jti),
                secret.spec_bytes(),
            )),
{
    proof {
        reveal_with_fuel(pow10, 20);
    }
    let jti = fresh_jti();
    let ghost j = jti@;
    let ghost rv = roles@;
    let claim = JwtClaim {
        iss: lit_issuer_vec(),
        aud: lit_audience_vec(),
        sub: user_id.as_bytes_vec(),
        iat: now,
        nbf: now,
        exp: now + 3600,
        jti: jti,
        typ: TokenType::Access,
        role: Some(roles),
    };
    let t = encode_token(&claim, secret);
    proof {
        assert(claim@ == issued_claim(TokenType::Access, user_id.spec_bytes(), Some(rv), now, j));
        assert(jti_wf(j) && vstd::utf8::encode_utf8(t@) == spec_token(
            issued_claim(TokenType::Access, user_id.spec_bytes(), Some(rv), now, j),
            secret.spec_bytes(),
        ));
    }
    Ok(t)
}

/// Issues a registration credential: subject is the email address, no role
/// set, valid for fifteen minutes from `now`.
pub fn issue_registration_token(email: &str, secret: &str, now: u64) -> (r: Result<
    String,
    AppError,
>)
    requires
        json_safe(email.spec_bytes()),
        time_in_range(now),
    ensures
        (r matches Ok(t) && exists|jti: Seq<u8>|
            #[trigger] jti_wf(jti) && vstd::utf8::encode_utf8(t@) == spec_token(
                issued_claim(TokenType::Registration, email.spec_bytes(), None, now, jti),
                secret.spec_bytes(),
            )),
{
    proof {
        reveal_with_fuel(pow10, 20);
    }
    let jti = fresh_jti();
    let ghost j = jti@;
    let claim = JwtClaim {
        iss: lit_issuer_vec(),
        aud: lit_audience_vec(),
        sub: email.as_bytes_vec(),
        iat: now,
        nbf: now,
        exp: now + 900,
        jti: jti,
        typ: TokenType::Registration,
        role: None,
    };
    let t = encode_token(&claim, secret);
    proof {
        assert(claim@ == issued_claim(TokenType::Registration, email.spec_bytes(), None, now, j));
        assert(jti_wf(j) && vstd::utf8::encode_utf8(t@) == spec_token(
            issued_claim(TokenType::Registration, email.spec_bytes(), None, now, j),
            secret.spec_bytes(),
        ));
    }
    Ok(t)
}

/// Issues a password-reset credential: subject is the email address, no
/// role set, valid for thirty minutes from `now`.
pub fn issue_password_reset_token(email: &str, secret: &str, now: u64) -> (r: Result<
    String,
    AppError,
>)
    requires
        json_safe(email.spec_bytes()),
        time_in_range(now),
    ensures
        (r matches Ok(t) && exists|jti: Seq<u8>|
            #[trigger] jti_wf(jti) && vstd::utf8::encode_utf8(t@) == spec_token(
                issued_claim(TokenType::PasswordReset, email.spec_bytes(), None, now, jti),
                secret.spec_bytes(),
            )),
{
    proof {
        reveal_with_fuel(pow10, 20);
    }
    let jti = fresh_jti();
    let ghost j = jti@;
    let claim = JwtClaim {
        iss: lit_issuer_vec(),
        aud: lit_audience_vec(),
        sub: email.as_bytes_vec(),
        iat: now,
        nbf: now,
        exp: now + 1800,
        jti: jti,
        typ: TokenType::PasswordReset,
        role: None,
    };
    let t = encode_token(&claim, secret);
    proof {
        assert(claim@ == issued_claim(TokenType::PasswordReset, email.spec_bytes(), None, now, j));
        assert(jti_wf(j) && vstd::utf8::encode_utf8(t@) == spec_token(
            issued_claim(TokenType::PasswordReset, email.spec_bytes(), None, now, j),
            secret.spec_bytes(),
        ));
    }
    Ok(t)
}

/// Validates a refresh credential presented for `user_id`: decode failures
/// are `Unauthenticated`; a wrong purpose or subject is a validation error.
pub fn validate_refresh_token(user_id: &str, token: &str, secret: &str, now: u64) -> (r: Result<
    (),
    AppError,
>)
    ensures
        match spec_decode_token(token.spec_bytes(), secret.spec_bytes(), now) {
            None => r matches Err(e) && e is AuthenticationError,
            Some(cd) => if cd.typ == TokenType::Refresh && cd.sub == user_id.spec_bytes() {
                r is Ok
            } else {
                r matches Err(e) && e is ValidationError
            },
        },
{
    let claim = match decode_and_verify(token, secret, now) {
        Ok(c) => c,
        Err(e) => {
            return Err(e);
        },
    };
    if claim.typ != TokenType::Refresh {
        return Err(AppError::ValidationError("credential purpose is not Refresh".to_owned()));
    }
    if !bytes_eq(claim.sub.as_slice(), user_id.as_bytes()) {
        return Err(AppError::ValidationError("user id does not match".to_owned()));
    }
    Ok(())
}

/// Validates an access credential presented for `user_id` with a required
/// role: decode failures are `Unauthenticated`; a wrong purpose is a
/// validation error; a wrong subject or a missing role is `Forbidden`.
pub fn validate_access_token(
    user_id: &str,
    required_role: Role,
    token: &str,
    secret: &str,
    now: u64,
) -> (r: Result<(), AppError>)
    ensures
        match spec_decode_token(token.spec_bytes(), secret.spec_bytes(), now) {
            None => r matches Err(e) && e is AuthenticationError,
            Some(cd) => if cd.typ != TokenType::Access {
                r matches Err(e) && e is ValidationError
            } else if cd.sub != user_id.spec_bytes() {
                r matches Err(e) && e is Forbidden
            } else if !(cd.role matches Some(rs) && rs.contains(required_role)) {
                r matches Err(e) && e is Forbidden
            } else {
                r is Ok
            },
        },
{
    let claim = match decode_and_verify(token, secret, now) {
        Ok(c) => c,
        Err(e) => {
            return Err(e);
        },
    };
    if claim.typ != TokenType::Access {
        return Err(AppError::ValidationError("credential purpose is not Access".to_owned()));
    }
    if !bytes_eq(claim.sub.as_slice(), user_id.as_bytes()) {
        return Err(AppError::Forbidden("user id does not match".to_owned()));
    }
    let has_role = match &claim.role {
        Some(rs) => roles_contain(rs, required_role),
        None => false,
    };
    if !has_role {
        return Err(AppError::Forbidden("insufficient permissions".to_owned()));
    }
    Ok(())
}

/// Validates a registration credential bound to `email` and returns its
/// credential id: decode failures are `Unauthenticated`; a wrong purpose or
/// email is a validation error.
pub fn validate_registration_token(token: &str, email: &str, secret: &str, now: u64) -> (r: Result<
    String,
    AppError,
>)
    ensures
        match spec_decode_token(token.spec_bytes(), secret.spec_bytes(), now) {
            None => r matches Err(e) && e is AuthenticationError,
            Some(cd) => if cd.typ == TokenType::Registration && cd.sub == email.spec_bytes() {
                r matches Ok(j) && vstd::utf8::encode_utf8(j@) == cd.jti
            } else {
                r matches Err(e) && e is ValidationError
            },
        },
{
    let claim = match decode_and_verify(token, secret, now) {
        Ok(c) => c,
        Err(e) => {
            return Err(e);
        },
    };
    if claim.typ != TokenType::Registration {
        return Err(AppError::ValidationError("credential purpose is not Registration".to_owned()));
    }
    if !bytes_eq(claim.sub.as_slice(), email.as_bytes()) {
        return Err(AppError::ValidationError("email address does not match".to_owned()));
    }
    proof {
        lemma_decode_fields_safe(token.spec_bytes(), secret.spec_bytes(), now);
    }
    Ok(ascii_bytes_to_string(claim.jti))
}

/// Validates a password-reset credential bound to `email` and returns its
/// credential id; failure cases as for registration.
pub fn validate_password_reset_token(token: &str, email: &str, secret: &str, now: u64) -> (r:
    Result<String, AppError>)
    ensures
        match spec_decode_token(token.spec_bytes(), secret.spec_bytes(), now) {
            None => r matches Err(e) && e is AuthenticationError,
            Some(cd) => if cd.typ == TokenType::PasswordReset && cd.sub == email.spec_bytes() {
                r matches Ok(j) && vstd::utf8::encode_utf8(j@) == cd.jti
            } else {
                r matches Err(e) && e is ValidationError
            },
        },
{
    let claim = match decode_and_verify(token, secret, now) {
        Ok(c) => c,
        Err(e) => {
            return Err(e);
        },
    };
    if claim.typ != TokenType::PasswordReset {
        return Err(
            AppError::ValidationError("credential purpose is not PasswordReset".to_owned()),
        );
    }
    if !bytes_eq(claim.sub.as_slice(), email.as_bytes()) {
        return Err(AppError::ValidationError("email address does not match".to_owned()));
    }
    proof {
        lemma_decode_fields_safe(token.spec_bytes(), secret.spec_bytes(), now);
    }
    Ok(ascii_bytes_to_string(claim.jti))
}

/// Extracts the subject of a presented credential, with full verification.
pub fn extract_user_id_from_token(token: &str, secret: &str, now: u64) -> (r: Result<
    String,
    AppError,
>)
    ensures
        match spec_decode_token(token.spec_bytes(), secret.spec_bytes(), now) {
            None => r matches Err(e) && e is AuthenticationError,
            Some(cd) => r matches Ok(u) && vstd::utf8::encode_utf8(u@) == cd.sub,
        },
{
    let claim = match decode_and_verify(token, secret, now) {
        Ok(c) => c,
        Err(e) => {
            return Err(e);
        },
    };
    proof {
        lemma_decode_fields_safe(token.spec_bytes(), secret.spec_bytes(), now);
    }
    Ok(ascii_bytes_to_string(claim.sub))
}

/// Extracts the credential id of a presented credential, with full
/// verification.
pub fn extract_jti_from_token(token: &str, secret: &str, now: u64) -> (r: Result<String, AppError>)
    ensures
        match spec_decode_token(token.spec_bytes(), secret.spec_bytes(), now) {
            None => r matches Err(e) && e is AuthenticationError,
            Some(cd) => r matches Ok(j) && vstd::utf8::encode_utf8(j@) == cd.jti,
        },
{
    let claim = match decode_and_verify(token, secret, now) {
        Ok(c) => c,
        Err(e) => {
            return Err(e);
        },
    };
    proof {
        lemma_decode_fields_safe(token.spec_bytes(), secret.spec_bytes(), now);
    }
    Ok(ascii_bytes_to_string(claim.jti))
}

} // verus!
