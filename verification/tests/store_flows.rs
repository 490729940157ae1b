//! The in-memory stores: verification codes and single-use tokens, the
//! revocation index, the rate limiters, and the user store.

use mimo_auth::errors::AppError;
use mimo_auth::hasher::{hash_password, verify_password};
use mimo_auth::rate_limiter::{AuthRateLimiter, EmailRateLimiter};
use mimo_auth::revocation::{JWTHandler, RevocationIndex};
use mimo_auth::user_store::UserStore;
use mimo_auth::verification_store::{CodeError, TokenError, VerificationPurpose, VerificationStore};

const NOW: u64 = 1700000000;

#[test]
fn code_check_counts_attempts_and_caps_at_five() {
    let mut store = VerificationStore::new();
    store.store_verification_code(
        "a@b.co".to_string(),
        "123456".to_string(),
        VerificationPurpose::Registration,
        NOW,
    );
    // five wrong attempts each answer `Ok(false)`.
    for _ in 0..5 {
        let r = store.verify_code("a@b.co", "000000", &VerificationPurpose::Registration, NOW);
        assert_eq!(r, Ok(false));
    }
    // the sixth answers "too many attempts" and removes the entry.
    let r = store.verify_code("a@b.co", "000000", &VerificationPurpose::Registration, NOW);
    assert_eq!(r, Err(CodeError::TooManyAttempts));
    let r = store.verify_code("a@b.co", "123456", &VerificationPurpose::Registration, NOW);
    assert_eq!(r, Err(CodeError::NotFound));
}

#[test]
fn code_check_consumes_on_match_and_expires() {
    let mut store = VerificationStore::new();
    store.store_verification_code(
        "a@b.co".to_string(),
        "123456".to_string(),
        VerificationPurpose::Registration,
        NOW,
    );
    // a wrong attempt does not consume; the right code does.
    assert_eq!(
        store.verify_code("a@b.co", "999999", &VerificationPurpose::Registration, NOW),
        Ok(false)
    );
    assert_eq!(
        store.verify_code("a@b.co", "123456", &VerificationPurpose::Registration, NOW),
        Ok(true)
    );
    assert_eq!(
        store.verify_code("a@b.co", "123456", &VerificationPurpose::Registration, NOW),
        Err(CodeError::NotFound)
    );
    // an expired entry answers "expired" and is removed.
    store.store_verification_code(
        "a@b.co".to_string(),
        "123456".to_string(),
        VerificationPurpose::Registration,
        NOW,
    );
    assert_eq!(
        store.verify_code("a@b.co", "123456", &VerificationPurpose::Registration, NOW + 901),
        Err(CodeError::Expired)
    );
    assert_eq!(
        store.verify_code("a@b.co", "123456", &VerificationPurpose::Registration, NOW),
        Err(CodeError::NotFound)
    );
}

#[test]
fn workflows_are_independent() {
    let mut store = VerificationStore::new();
    store.store_verification_code(
        "a@b.co".to_string(),
        "111111".to_string(),
        VerificationPurpose::Registration,
        NOW,
    );
    store.store_verification_code(
        "a@b.co".to_string(),
        "222222".to_string(),
        VerificationPurpose::PasswordReset,
        NOW,
    );
    assert_eq!(
        store.verify_code("a@b.co", "222222", &VerificationPurpose::Registration, NOW),
        Ok(false)
    );
    assert_eq!(
        store.verify_code("a@b.co", "222222", &VerificationPurpose::PasswordReset, NOW),
        Ok(true)
    );
}

#[test]
fn intermediate_token_is_single_use() {
    let mut store = VerificationStore::new();
    store.store_registration_token("a@b.co".to_string(), "tok-1".to_string(), 900, NOW);
    // wrong email does not consume.
    assert_eq!(
        store.verify_registration_token("tok-1", "x@y.co", NOW),
        Err(TokenError::EmailMismatch)
    );
    // the first consumption succeeds; every further one is "already used".
    assert_eq!(store.verify_registration_token("tok-1", "a@b.co", NOW), Ok(()));
    assert_eq!(
        store.verify_registration_token("tok-1", "a@b.co", NOW),
        Err(TokenError::AlreadyUsed)
    );
    assert_eq!(
        store.verify_registration_token("tok-1", "a@b.co", NOW + 100),
        Err(TokenError::AlreadyUsed)
    );
    // invalidation removes the record outright.
    store.invalidate_registration_token("tok-1");
    assert_eq!(
        store.verify_registration_token("tok-1", "a@b.co", NOW),
        Err(TokenError::NotFound)
    );
}

#[test]
fn token_expiry_and_cleanup() {
    let mut store = VerificationStore::new();
    store.store_registration_token("a@b.co".to_string(), "tok-1".to_string(), 900, NOW);
    assert_eq!(
        store.verify_registration_token("tok-1", "a@b.co", NOW + 901),
        Err(TokenError::Expired)
    );
    // the sweeper drops expired codes and used or expired tokens.
    store.store_verification_code(
        "a@b.co".to_string(),
        "123456".to_string(),
        VerificationPurpose::Registration,
        NOW,
    );
    store.store_registration_token("a@b.co".to_string(), "tok-2".to_string(), 900, NOW);
    assert_eq!(store.verify_registration_token("tok-2", "a@b.co", NOW), Ok(()));
    store.cleanup_expired(NOW + 10);
    // tok-2 is used, so it is swept even though it has not expired.
    assert_eq!(
        store.verify_registration_token("tok-2", "a@b.co", NOW + 10),
        Err(TokenError::NotFound)
    );
    // the code is still live at NOW + 10 ...
    assert_eq!(
        store.verify_code("a@b.co", "000000", &VerificationPurpose::Registration, NOW + 10),
        Ok(false)
    );
    // ... but gone after a sweep past its expiry.
    store.cleanup_expired(NOW + 901);
    assert_eq!(
        store.verify_code("a@b.co", "123456", &VerificationPurpose::Registration, NOW + 10),
        Err(CodeError::NotFound)
    );
}

#[test]
fn revocation_index_read_your_write_and_prune() {
    let mut idx = RevocationIndex::new();
    assert!(!idx.is_revoked("jti-1"));
    idx.revoke("jti-1", NOW + 3600, NOW);
    assert!(idx.is_revoked("jti-1"));
    assert!(!idx.is_revoked("jti-2"));
    // pruning keeps records whose natural expiry lies in the future.
    idx.prune_expired(NOW + 100);
    assert!(idx.is_revoked("jti-1"));
    idx.prune_expired(NOW + 3601);
    assert!(!idx.is_revoked("jti-1"));
}

#[test]
fn mail_limiter_allows_three_per_email_per_window() {
    let mut lim = EmailRateLimiter::new();
    assert!(lim.check_email_limit("a@b.co", NOW).is_ok());
    assert!(lim.check_email_limit("a@b.co", NOW + 10).is_ok());
    assert!(lim.check_email_limit("a@b.co", NOW + 20).is_ok());
    // the fourth inside the window is rejected with a retry hint.
    let e = lim.check_email_limit("a@b.co", NOW + 30).unwrap_err();
    assert!(!e.is_empty());
    // another key is untouched.
    assert!(lim.check_email_limit("c@d.co", NOW + 30).is_ok());
    // a full window later the bucket refills.
    assert!(lim.check_email_limit("a@b.co", NOW + 930).is_ok());
}

#[test]
fn mail_limiter_allows_five_per_ip_per_hour() {
    let mut lim = EmailRateLimiter::new();
    for i in 0..5 {
        assert!(lim.check_ip_limit("1.2.3.4", NOW + i).is_ok());
    }
    assert!(lim.check_ip_limit("1.2.3.4", NOW + 5).is_err());
    assert!(lim.check_ip_limit("1.2.3.4", NOW + 3600).is_ok());
}

#[test]
fn auth_limiter_quotas() {
    let mut lim = AuthRateLimiter::new();
    for i in 0..30 {
        assert!(lim.check_ip_limit("1.2.3.4", NOW + i).is_ok());
    }
    assert!(lim.check_ip_limit("1.2.3.4", NOW + 30).is_err());
    for i in 0..5 {
        assert!(lim.check_user_limit("u1", NOW + i).is_ok());
    }
    assert!(lim.check_user_limit("u1", NOW + 5).is_err());
    // per-user buckets refill each minute.
    assert!(lim.check_user_limit("u1", NOW + 65).is_ok());
}

#[test]
fn user_store_enforces_unique_emails_across_soft_deletes() {
    let mut store = UserStore::new();
    let digest = hash_password("Passw0rd!").unwrap();
    let created = store
        .create_user("u1".to_string(), "a@b.co".to_string(), None, digest.clone(), NOW)
        .unwrap();
    assert_eq!(created.user_id, "u1");
    assert_eq!(created.display_name, "");
    assert!(created.is_active);
    // the same email cannot be reused, even by another id.
    assert!(matches!(
        store.create_user("u2".to_string(), "a@b.co".to_string(), None, digest.clone(), NOW),
        Err(AppError::ValidationError(_))
    ));
    // the same id cannot be reused either.
    assert!(matches!(
        store.create_user("u1".to_string(), "x@y.co".to_string(), None, digest.clone(), NOW),
        Err(AppError::ValidationError(_))
    ));
    // a soft delete keeps the record and its email reserved.
    store.soft_delete("u1", NOW + 1).unwrap();
    let u = store.find_user_by_id("u1").unwrap();
    assert!(!u.is_active);
    assert!(matches!(
        store.create_user("u3".to_string(), "a@b.co".to_string(), None, digest, NOW),
        Err(AppError::ValidationError(_))
    ));
}

#[test]
fn user_store_update_excludes_self_from_uniqueness() {
    let mut store = UserStore::new();
    let digest = hash_password("Passw0rd!").unwrap();
    store
        .create_user("u1".to_string(), "a@b.co".to_string(), None, digest.clone(), NOW)
        .unwrap();
    store
        .create_user("u2".to_string(), "c@d.co".to_string(), None, digest, NOW)
        .unwrap();
    // re-asserting one's own email is fine.
    let v = store
        .update_user("u1", Some("a@b.co".to_string()), None, None, NOW + 5)
        .unwrap();
    assert_eq!(v.email, "a@b.co");
    assert_eq!(v.updated_at, NOW + 5);
    // taking another user's email is not.
    assert!(matches!(
        store.update_user("u1", Some("c@d.co".to_string()), None, None, NOW + 6),
        Err(AppError::ValidationError(_))
    ));
    // changing to a fresh email frees the old one.
    store
        .update_user("u1", Some("new@b.co".to_string()), None, None, NOW + 7)
        .unwrap();
    assert!(store.find_user_by_email("a@b.co").is_none());
    assert!(store.find_user_by_email("new@b.co").is_some());
}

#[test]
fn password_digests_round_trip() {
    let digest = hash_password("correct horse").unwrap();
    assert!(verify_password("correct horse", &digest));
    assert!(!verify_password("wrong horse", &digest));
    // an unparsable digest never matches.
    assert!(!verify_password("correct horse", "not-a-digest"));
    // per-digest salts make digests differ even for equal passwords.
    let digest2 = hash_password("correct horse").unwrap();
    assert_ne!(digest, digest2);
    assert!(verify_password("correct horse", &digest2));
}

#[test]
fn user_store_checks_passwords_without_exposing_digests() {
    let mut store = UserStore::new();
    let digest = hash_password("Passw0rd!").unwrap();
    store
        .create_user("u1".to_string(), "a@b.co".to_string(), None, digest, NOW)
        .unwrap();
    assert!(store.check_password("a@b.co", "Passw0rd!"));
    assert!(!store.check_password("a@b.co", "Passw0rd?"));
    assert!(!store.check_password("missing@b.co", "Passw0rd!"));
    // set_password replaces the digest.
    let digest2 = hash_password("NewPassw0rd!").unwrap();
    store.set_password("u1", digest2, NOW + 1).unwrap();
    assert!(!store.check_password("a@b.co", "Passw0rd!"));
    assert!(store.check_password("a@b.co", "NewPassw0rd!"));
}

#[test]
fn revocation_trait_backs_the_same_index() {
    // the abstract revocation interface drives the in-memory index.
    let mut idx: RevocationIndex = RevocationIndex::new();
    JWTHandler::revoke(&mut idx, "jti-9", NOW + 60, NOW);
    assert!(JWTHandler::is_revoked(&idx, "jti-9"));
    JWTHandler::celanup(&mut idx, NOW + 61);
    assert!(!JWTHandler::is_revoked(&idx, "jti-9"));
}

#[test]
fn token_lifetime_follows_the_workflow() {
    let mut store = VerificationStore::new();
    // a thirty-minute token is still alive after twenty minutes.
    store.store_registration_token("a@b.co".to_string(), "tok-3".to_string(), 1800, NOW);
    assert_eq!(store.verify_registration_token("tok-3", "a@b.co", NOW + 1200), Ok(()));
    // a fifteen-minute token is not.
    store.store_registration_token("a@b.co".to_string(), "tok-4".to_string(), 900, NOW);
    assert_eq!(
        store.verify_registration_token("tok-4", "a@b.co", NOW + 1200),
        Err(TokenError::Expired)
    );
}
