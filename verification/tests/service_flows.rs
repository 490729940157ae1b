//! End-to-end flows through the authentication service, and the validators
//! and client-IP resolution around it.

use mimo_auth::auth_service::AuthService;
use mimo_auth::claims::Role;
use mimo_auth::client_ip::{get_client_ip, split_commas_trimmed};
use mimo_auth::config::{
    parse_environment, CookieConfig, Environment, SameSitePolicy, ServerConfig,
};
use mimo_auth::errors::AppError;
use mimo_auth::requests::{UserCreateRequest, UserUpdateRequest};
use mimo_auth::token::validate_access_token;
use mimo_auth::validate::{
    validate_display_name_format, validate_email_format, validate_memo_content,
    validate_password_format, validate_user_id_format,
};
use mimo_auth::verification_store::VerificationPurpose;

const SECRET: &str = "test-signing-secret";
const NOW: u64 = 1700000000;
const IP: &str = "1.2.3.4";

fn registered_service() -> AuthService {
    let mut svc = AuthService::new(SECRET.to_string());
    let mail = svc.start_registration("a@b.co", Some(IP), NOW).unwrap();
    assert_eq!(mail.email, "a@b.co");
    assert_eq!(mail.code.len(), 6);
    assert!(mail.code.bytes().all(|b| b.is_ascii_digit()));
    assert_eq!(mail.purpose, VerificationPurpose::Registration);
    let token = svc
        .verify_email_and_issue_registration_token("a@b.co", &mail.code, NOW + 1)
        .unwrap();
    let req = UserCreateRequest {
        user_id: "user1".to_string(),
        email: "a@b.co".to_string(),
        display_name: None,
        password: "Passw0rd!".to_string(),
    };
    let (access, refresh, user) = svc.complete_registration(&token, req, NOW + 2).unwrap();
    assert!(!access.is_empty());
    assert!(!refresh.is_empty());
    assert_eq!(user.user_id, "user1");
    assert_eq!(user.email, "a@b.co");
    assert!(user.is_active);
    svc
}

#[test]
fn happy_registration_creates_the_user_and_session() {
    let svc = registered_service();
    let user = svc.get_current_user("user1").unwrap();
    assert_eq!(user.email, "a@b.co");
}

#[test]
fn replaying_the_registration_token_fails() {
    let mut svc = AuthService::new(SECRET.to_string());
    let mail = svc.start_registration("a@b.co", Some(IP), NOW).unwrap();
    let token = svc
        .verify_email_and_issue_registration_token("a@b.co", &mail.code, NOW + 1)
        .unwrap();
    let req = UserCreateRequest {
        user_id: "user1".to_string(),
        email: "a@b.co".to_string(),
        display_name: None,
        password: "Passw0rd!".to_string(),
    };
    svc.complete_registration(&token, req, NOW + 2).unwrap();
    // the same token again: the intermediate record is gone, so the replay
    // is rejected as a validation error.
    let req2 = UserCreateRequest {
        user_id: "user2".to_string(),
        email: "a@b.co".to_string(),
        display_name: None,
        password: "Passw0rd!".to_string(),
    };
    assert!(matches!(
        svc.complete_registration(&token, req2, NOW + 3),
        Err(AppError::ValidationError(_))
    ));
}

#[test]
fn wrong_code_is_rejected_and_capped() {
    let mut svc = AuthService::new(SECRET.to_string());
    let mail = svc.start_registration("a@b.co", Some(IP), NOW).unwrap();
    // five wrong codes are soft failures ...
    let wrong = if mail.code == "000000" { "000001" } else { "000000" };
    for i in 0..5 {
        assert!(matches!(
            svc.verify_email_and_issue_registration_token("a@b.co", wrong, NOW + i),
            Err(AppError::ValidationError(_))
        ));
    }
    // ... and the sixth check finds the slot gone, so even the right code
    // fails now.
    assert!(matches!(
        svc.verify_email_and_issue_registration_token("a@b.co", &mail.code, NOW + 6),
        Err(AppError::ValidationError(_))
    ));
}

#[test]
fn login_then_logout_invalidates_refresh() {
    let mut svc = registered_service();
    let (access, refresh, user) = svc.login("a@b.co", "Passw0rd!", IP, NOW + 10).unwrap();
    assert_eq!(user.user_id, "user1");
    // refresh works while the credential is live.
    let new_access = svc.refresh_access_token(&refresh, IP, NOW + 20).unwrap();
    assert!(!new_access.is_empty());
    // logout revokes both presented credentials ...
    svc.logout(Some(&access), Some(&refresh), NOW + 30).unwrap();
    // ... so a later refresh with the same credential is unauthenticated.
    assert!(matches!(
        svc.refresh_access_token(&refresh, IP, NOW + 40),
        Err(AppError::AuthenticationError(_))
    ));
}

#[test]
fn login_rejects_bad_credentials_uniformly() {
    let mut svc = registered_service();
    assert!(matches!(
        svc.login("a@b.co", "WrongPass!", IP, NOW + 10),
        Err(AppError::AuthenticationError(_))
    ));
    assert!(matches!(
        svc.login("nobody@b.co", "Passw0rd!", IP, NOW + 11),
        Err(AppError::AuthenticationError(_))
    ));
    // an inactive account cannot log in, and the message leaks nothing.
    svc.delete_user("user1", NOW + 12).unwrap();
    match svc.login("a@b.co", "Passw0rd!", IP, NOW + 13) {
        Err(AppError::AuthenticationError(m)) => assert_eq!(m, "Invalid email or password"),
        _ => panic!("inactive login must be rejected as unauthenticated"),
    }
}

#[test]
fn registration_flood_is_rate_limited() {
    let mut svc = AuthService::new(SECRET.to_string());
    // the first three sends within the window succeed; the rest are
    // rejected with "too many requests".
    for i in 0..3 {
        let r = svc.start_registration("a@b.co", None, NOW + i * 60);
        assert!(r.is_ok());
    }
    for i in 3..6 {
        assert!(matches!(
            svc.start_registration("a@b.co", None, NOW + i * 60),
            Err(AppError::TooManyRequests(_))
        ));
    }
    // a full window later the email's bucket has refilled.
    assert!(svc.start_registration("a@b.co", None, NOW + 900).is_ok());
}

#[test]
fn login_flood_per_user_is_rate_limited() {
    let mut svc = registered_service();
    for i in 0..5 {
        let _ = svc.login("a@b.co", "WrongPass!", IP, NOW + i);
    }
    assert!(matches!(
        svc.login("a@b.co", "Passw0rd!", IP, NOW + 5),
        Err(AppError::TooManyRequests(_))
    ));
}

#[test]
fn cross_user_access_is_forbidden() {
    let mut svc = registered_service();
    let (access, _refresh, _user) = svc.login("a@b.co", "Passw0rd!", IP, NOW + 10).unwrap();
    // a memo-read path validates subject and role; the holder passes.
    assert!(validate_access_token("user1", Role::ViewMemo, &access, SECRET, NOW + 11).is_ok());
    // on behalf of another user the same credential is forbidden.
    assert!(matches!(
        validate_access_token("user2", Role::ViewMemo, &access, SECRET, NOW + 11),
        Err(AppError::Forbidden(_))
    ));
}

#[test]
fn password_reset_flow_changes_the_password() {
    let mut svc = registered_service();
    let mail = svc.forgot_password("a@b.co", Some(IP), NOW + 10).unwrap();
    assert_eq!(mail.purpose, VerificationPurpose::PasswordReset);
    let token = svc
        .verify_reset_code_and_issue_reset_token("a@b.co", &mail.code, NOW + 11)
        .unwrap();
    svc.complete_password_reset(&token, "a@b.co", "NewPassw0rd!", NOW + 12)
        .unwrap();
    // the old password no longer works; the new one does.
    assert!(matches!(
        svc.login("a@b.co", "Passw0rd!", IP, NOW + 13),
        Err(AppError::AuthenticationError(_))
    ));
    assert!(svc.login("a@b.co", "NewPassw0rd!", IP, NOW + 14).is_ok());
    // the reset token is single-use.
    assert!(matches!(
        svc.complete_password_reset(&token, "a@b.co", "OtherPass1!", NOW + 15),
        Err(AppError::ValidationError(_))
    ));
}

#[test]
fn forgot_password_requires_an_existing_user() {
    let mut svc = AuthService::new(SECRET.to_string());
    assert!(matches!(
        svc.forgot_password("nobody@b.co", Some(IP), NOW),
        Err(AppError::NotFound(_))
    ));
}

#[test]
fn self_service_updates_validate_and_apply() {
    let mut svc = registered_service();
    let v = svc
        .update_user(
            "user1",
            UserUpdateRequest {
                email: None,
                display_name: Some("Ada".to_string()),
                password: None,
            },
            NOW + 20,
        )
        .unwrap();
    assert_eq!(v.display_name, "Ada");
    // a malformed email in a patch is rejected.
    assert!(matches!(
        svc.update_user(
            "user1",
            UserUpdateRequest {
                email: Some("not-an-email".to_string()),
                display_name: None,
                password: None,
            },
            NOW + 21,
        ),
        Err(AppError::ValidationError(_))
    ));
    // changing one's password requires the old one.
    assert!(matches!(
        svc.reset_password("user1", "WrongOld!", "Fresh9Pass!", NOW + 22),
        Err(AppError::AuthenticationError(_))
    ));
    svc.reset_password("user1", "Passw0rd!", "Fresh9Pass!", NOW + 23).unwrap();
    assert!(svc.login("a@b.co", "Fresh9Pass!", IP, NOW + 24).is_ok());
}

#[test]
fn validators_accept_and_reject_the_documented_shapes() {
    assert!(validate_email_format("a@b.co").is_ok());
    assert!(validate_email_format("USER.name+tag@sub.example.org").is_ok());
    assert!(validate_email_format("a@b.c").is_err()); // single-letter label
    assert!(validate_email_format("@b.co").is_err());
    assert!(validate_email_format("a@.co").is_err());
    assert!(validate_email_format("a@bco").is_err());
    assert!(validate_email_format("a b@b.co").is_err());
    assert!(validate_email_format("a@b.co2").is_err()); // digit in the label

    assert!(validate_user_id_format("u_1").is_ok());
    assert!(validate_user_id_format("ab").is_err()); // too short
    assert!(validate_user_id_format(&"x".repeat(33)).is_err());
    assert!(validate_user_id_format("bad id").is_err());

    assert!(validate_password_format("12345678").is_ok());
    assert!(validate_password_format("1234567").is_err());
    assert!(validate_password_format(&"p".repeat(256)).is_ok());
    assert!(validate_password_format(&"p".repeat(257)).is_err());

    assert!(validate_display_name_format("A").is_ok());
    assert!(validate_display_name_format("").is_err());
    assert!(validate_display_name_format(&"n".repeat(50)).is_ok());
    assert!(validate_display_name_format(&"n".repeat(51)).is_err());

    assert!(validate_memo_content("hello").is_ok());
    assert!(validate_memo_content("   ").is_err());
    assert!(validate_memo_content(&"m".repeat(512)).is_ok());
    assert!(validate_memo_content(&"m".repeat(513)).is_err());
}

#[test]
fn client_ip_follows_the_priority_order() {
    assert_eq!(get_client_ip(Some("9.9.9.9"), Some("8.8.8.8"), Some("7.7.7.7"), "6.6.6.6"), "9.9.9.9");
    assert_eq!(get_client_ip(None, Some("8.8.8.8"), Some("7.7.7.7"), "6.6.6.6"), "8.8.8.8");
    assert_eq!(get_client_ip(None, None, Some(" 7.7.7.7 , 5.5.5.5"), "6.6.6.6"), "7.7.7.7");
    assert_eq!(get_client_ip(None, None, None, "6.6.6.6"), "6.6.6.6");
}

#[test]
fn comma_lists_split_and_trim() {
    let parts = split_commas_trimmed("a, b ,c");
    assert_eq!(parts, vec!["a".to_string(), "b".to_string(), "c".to_string()]);
    let parts = split_commas_trimmed("https://x.example");
    assert_eq!(parts, vec!["https://x.example".to_string()]);
}

#[test]
fn environment_and_cookie_policy() {
    assert_eq!(parse_environment("Development"), Some(Environment::Development));
    assert_eq!(parse_environment("dev"), Some(Environment::Development));
    assert_eq!(parse_environment("PRODUCTION"), Some(Environment::Production));
    assert_eq!(parse_environment("prod"), Some(Environment::Production));
    assert_eq!(parse_environment("staging"), None);

    let prod = CookieConfig::from_environment(&Environment::Production);
    assert!(prod.secure && prod.http_only);
    assert_eq!(prod.same_site, SameSitePolicy::CrossSite);
    let dev = CookieConfig::from_environment(&Environment::Development);
    assert!(!dev.secure && dev.http_only);
    assert_eq!(dev.same_site, SameSitePolicy::Lax);
}

#[test]
fn production_requires_explicit_origins() {
    let server = ServerConfig {
        host: "0.0.0.0".to_string(),
        port: 5050,
        env: Environment::Production,
        allowed_origins: vec![],
    };
    assert!(matches!(
        server.get_allowed_origins(vec![]),
        Err(AppError::ConfigError(_))
    ));
    let server = ServerConfig {
        host: "0.0.0.0".to_string(),
        port: 5050,
        env: Environment::Production,
        allowed_origins: vec!["https://x.example".to_string()],
    };
    assert_eq!(
        server.get_allowed_origins(vec!["http://localhost:5050".to_string()]).unwrap(),
        vec!["https://x.example".to_string()]
    );
    let server = ServerConfig {
        host: "0.0.0.0".to_string(),
        port: 5050,
        env: Environment::Development,
        allowed_origins: vec!["https://x.example".to_string()],
    };
    assert_eq!(
        server.get_allowed_origins(vec!["http://localhost:5050".to_string()]).unwrap(),
        vec!["http://localhost:5050".to_string(), "https://x.example".to_string()]
    );
}

#[test]
fn reset_token_outlives_the_registration_window() {
    let mut svc = registered_service();
    let mail = svc.forgot_password("a@b.co", Some(IP), NOW + 10).unwrap();
    let token = svc
        .verify_reset_code_and_issue_reset_token("a@b.co", &mail.code, NOW + 11)
        .unwrap();
    // twenty minutes in: past the fifteen-minute registration window, still
    // inside the thirty-minute reset window.
    svc.complete_password_reset(&token, "a@b.co", "NewPassw0rd!", NOW + 1211)
        .unwrap();
    assert!(svc.login("a@b.co", "NewPassw0rd!", IP, NOW + 1300).is_ok());
}

#[test]
fn blank_memos_are_rejected_like_trimmed_text() {
    // every whitespace form that trimming strips counts as blank.
    assert!(validate_memo_content("\u{000B}").is_err());
    assert!(validate_memo_content("\u{00A0}\u{2003}").is_err());
    assert!(validate_memo_content(" \u{3000} ").is_err());
    assert!(validate_memo_content(" x ").is_ok());
}
