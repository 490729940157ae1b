//! Credential codec: issuance, decoding, rejection, and the byte-level
//! codecs underneath it.

use mimo_auth::b64::{b64_decode, b64_encode};
use mimo_auth::claims::{Role, TokenType};
use mimo_auth::decimal::{parse_u64_dec, push_u64_dec};
use mimo_auth::token::{
    decode_and_verify, default_role_set, extract_jti_from_token, extract_user_id_from_token,
    issue_access_token, issue_password_reset_token, issue_refresh_token, issue_registration_token,
    validate_access_token, validate_password_reset_token, validate_refresh_token,
    validate_registration_token,
};
use mimo_auth::errors::AppError;

const SECRET: &str = "test-signing-secret";
const NOW: u64 = 1700000000;

#[test]
fn refresh_token_round_trips() {
    let t = issue_refresh_token("user_one", SECRET, NOW).unwrap();
    let c = decode_and_verify(&t, SECRET, NOW).unwrap();
    assert_eq!(c.typ, TokenType::Refresh);
    assert_eq!(c.sub, b"user_one".to_vec());
    assert_eq!(c.iss, b"mimo-server".to_vec());
    assert_eq!(c.aud, b"mimo-client".to_vec());
    assert_eq!(c.iat, NOW);
    assert_eq!(c.nbf, NOW);
    assert_eq!(c.exp, NOW + 604800);
    assert!(c.role.is_none());
    assert_eq!(c.jti.len(), 36);
}

#[test]
fn access_token_round_trips_with_roles() {
    let t = issue_access_token("user_one", default_role_set(), SECRET, NOW).unwrap();
    let c = decode_and_verify(&t, SECRET, NOW).unwrap();
    assert_eq!(c.typ, TokenType::Access);
    assert_eq!(c.exp, NOW + 3600);
    let roles = c.role.unwrap();
    assert_eq!(
        roles,
        vec![
            Role::EditMemo,
            Role::ViewMemo,
            Role::SummarizeMemo,
            Role::EditTag,
            Role::EditAccount
        ]
    );
    assert!(!roles.contains(&Role::DeleteAccount));
    assert!(!roles.contains(&Role::ResetPassword));
}

#[test]
fn registration_and_reset_tokens_round_trip() {
    let t = issue_registration_token("a@b.co", SECRET, NOW).unwrap();
    let c = decode_and_verify(&t, SECRET, NOW).unwrap();
    assert_eq!(c.typ, TokenType::Registration);
    assert_eq!(c.sub, b"a@b.co".to_vec());
    assert_eq!(c.exp, NOW + 900);

    let t2 = issue_password_reset_token("a@b.co", SECRET, NOW).unwrap();
    let c2 = decode_and_verify(&t2, SECRET, NOW).unwrap();
    assert_eq!(c2.typ, TokenType::PasswordReset);
    assert_eq!(c2.exp, NOW + 1800);
}

#[test]
fn decode_rejects_wrong_secret_and_tampering() {
    let t = issue_refresh_token("user_one", SECRET, NOW).unwrap();
    assert!(matches!(
        decode_and_verify(&t, "another-secret-value", NOW),
        Err(AppError::AuthenticationError(_))
    ));
    let mut tampered = t.clone().into_bytes();
    let dot = tampered.iter().position(|&b| b == b'.').unwrap();
    tampered[dot + 1] = if tampered[dot + 1] == b'A' { b'B' } else { b'A' };
    let tampered = String::from_utf8(tampered).unwrap();
    assert!(matches!(
        decode_and_verify(&tampered, SECRET, NOW),
        Err(AppError::AuthenticationError(_))
    ));
    assert!(matches!(
        decode_and_verify("not-a-token", SECRET, NOW),
        Err(AppError::AuthenticationError(_))
    ));
}

#[test]
fn decode_enforces_validity_window() {
    let t = issue_access_token("user_one", default_role_set(), SECRET, NOW).unwrap();
    // before nbf
    assert!(decode_and_verify(&t, SECRET, NOW - 1).is_err());
    // inside the window
    assert!(decode_and_verify(&t, SECRET, NOW + 3599).is_ok());
    // at and after expiry
    assert!(decode_and_verify(&t, SECRET, NOW + 3600).is_err());
}

#[test]
fn validators_check_purpose_subject_and_role() {
    let a = issue_access_token("u1", default_role_set(), SECRET, NOW).unwrap();
    let r = issue_refresh_token("u1", SECRET, NOW).unwrap();

    assert!(validate_refresh_token("u1", &r, SECRET, NOW).is_ok());
    assert!(matches!(
        validate_refresh_token("u1", &a, SECRET, NOW),
        Err(AppError::ValidationError(_))
    ));
    assert!(matches!(
        validate_refresh_token("u2", &r, SECRET, NOW),
        Err(AppError::ValidationError(_))
    ));

    assert!(validate_access_token("u1", Role::ViewMemo, &a, SECRET, NOW).is_ok());
    // cross-user access is forbidden
    assert!(matches!(
        validate_access_token("u2", Role::ViewMemo, &a, SECRET, NOW),
        Err(AppError::Forbidden(_))
    ));
    // a role outside the default set is forbidden
    assert!(matches!(
        validate_access_token("u1", Role::DeleteAccount, &a, SECRET, NOW),
        Err(AppError::Forbidden(_))
    ));
}

#[test]
fn intermediate_token_validators_bind_the_email() {
    let t = issue_registration_token("a@b.co", SECRET, NOW).unwrap();
    let jti = validate_registration_token(&t, "a@b.co", SECRET, NOW).unwrap();
    assert_eq!(jti.len(), 36);
    assert!(matches!(
        validate_registration_token(&t, "x@y.co", SECRET, NOW),
        Err(AppError::ValidationError(_))
    ));

    let t2 = issue_password_reset_token("a@b.co", SECRET, NOW).unwrap();
    assert!(validate_password_reset_token(&t2, "a@b.co", SECRET, NOW).is_ok());
    // the two intermediate purposes are not interchangeable
    assert!(matches!(
        validate_password_reset_token(&t, "a@b.co", SECRET, NOW),
        Err(AppError::ValidationError(_))
    ));
}

#[test]
fn extractors_return_subject_and_id() {
    let t = issue_refresh_token("user_one", SECRET, NOW).unwrap();
    assert_eq!(extract_user_id_from_token(&t, SECRET, NOW).unwrap(), "user_one");
    let j = extract_jti_from_token(&t, SECRET, NOW).unwrap();
    assert_eq!(j.len(), 36);
}

#[test]
fn base64url_round_trips() {
    let cases: Vec<Vec<u8>> = vec![
        vec![],
        vec![0],
        vec![255],
        vec![1, 2],
        vec![1, 2, 3],
        vec![251, 239, 190, 0, 17],
        (0u8..=255).collect(),
    ];
    for v in cases {
        let enc = b64_encode(&v);
        for &b in &enc {
            assert!(b.is_ascii_alphanumeric() || b == b'-' || b == b'_');
        }
        let dec = b64_decode(&enc).unwrap();
        assert_eq!(dec, v);
    }
    // the standard test vector: "foobar" in base64url without padding
    assert_eq!(b64_encode(b"foobar"), b"Zm9vYmFy".to_vec());
    assert_eq!(b64_encode(b"foob"), b"Zm9vYg".to_vec());
    // a lone trailing byte group of one is invalid
    assert!(b64_decode(b"A").is_none());
    // non-alphabet bytes are rejected
    assert!(b64_decode(b"Zm9v.WFy").is_none());
}

#[test]
fn decimal_renders_and_parses_exactly() {
    let mut v = Vec::new();
    push_u64_dec(&mut v, 0);
    assert_eq!(v, b"0".to_vec());
    let mut v = Vec::new();
    push_u64_dec(&mut v, 1700000000);
    assert_eq!(v, b"1700000000".to_vec());
    assert_eq!(parse_u64_dec(b"1700000000,", 0), Some((1700000000, 10)));
    assert_eq!(parse_u64_dec(b"0}", 0), Some((0, 1)));
    // leading zeros are not canonical
    assert_eq!(parse_u64_dec(b"007", 0), None);
    // twenty digits exceed the canonical width
    assert_eq!(parse_u64_dec(b"12345678901234567890", 0), None);
    assert_eq!(parse_u64_dec(b",", 0), None);
}
