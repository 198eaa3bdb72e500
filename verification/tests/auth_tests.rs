use simu_backend::auth::{
    api_token_decision, bearer_token, bumped_session_version, check_email_free,
    check_one_time_token, check_token_row, current_user_id, current_user_id_unchecked, redeem_token_row, exported_user,
    email_verified, forgot_password_status, hash_password, is_locked, issue_cookie,
    link_with_token, login_decision, mfa_stage, parse_session_cookie, session_cookie_name,
    signup_account, verify_password, ChangePasswordInput, LoginDecision, LoginInput, MfaStage,
    ResetPasswordInput, SignupInput, UserDto, UserRecord, VerifyEmailInput, LOCK_MICROS,
};
use simu_backend::crypto::{random_invite_token, random_share_token, random_state, random_url_token, sha256_hex};
use simu_backend::error::AppError;

const UID: u128 = 0x0123456789abcdef0123456789abcdef;

fn user() -> UserRecord {
    UserRecord {
        id: UID,
        email: "ann@example.com".to_string(),
        role: "user".to_string(),
        email_verified_at: None,
        session_version: 3,
        totp_secret: None,
        totp_enabled: false,
        failed_login_count: 0,
        locked_until: None,
    }
}

#[test]
fn cookie_value_is_id_colon_version() {
    let c = issue_cookie(UID, 7);
    assert_eq!(c.name, "simu_session");
    assert_eq!(c.value, "01234567-89ab-cdef-0123-456789abcdef:7");
    assert_eq!(c.path, "/");
    assert!(c.http_only);
    assert!(c.same_site_lax);
    assert!(!c.secure);
    assert_eq!(c.max_age_days, 30);
    assert_eq!(session_cookie_name(), "simu_session");
}

#[test]
fn issued_cookie_parses_back() {
    for v in [0, 1, -5, i32::MAX, i32::MIN] {
        let c = issue_cookie(UID, v);
        assert_eq!(parse_session_cookie(Some(c.value.as_str())), Some((UID, v)));
    }
}

#[test]
fn malformed_cookies_are_rejected() {
    assert_eq!(parse_session_cookie(None), None);
    assert_eq!(parse_session_cookie(Some("no-colon")), None);
    assert_eq!(parse_session_cookie(Some("01234567-89ab-cdef-0123-456789abcdef:x")), None);
    assert_eq!(parse_session_cookie(Some("not-a-uuid:1")), None);
    assert_eq!(parse_session_cookie(Some("01234567-89ab-cdef-0123-456789abcdef:")), None);
}

#[test]
fn session_version_must_match() {
    assert!(matches!(current_user_id(Some((UID, 3)), Some(3)), Ok(u) if u == UID));
    assert!(matches!(current_user_id(Some((UID, 2)), Some(3)), Err(AppError::Unauthorized)));
    assert!(matches!(current_user_id(Some((UID, 3)), None), Err(AppError::Unauthorized)));
    assert!(matches!(current_user_id(None, Some(3)), Err(AppError::Unauthorized)));
}

#[test]
fn bumped_version_ends_old_sessions() {
    let v = bumped_session_version(3);
    assert_eq!(v, 4);
    let old = issue_cookie(UID, 3);
    let parsed = parse_session_cookie(Some(old.value.as_str()));
    assert!(matches!(current_user_id(parsed, Some(v)), Err(AppError::Unauthorized)));
    let fresh = issue_cookie(UID, v);
    let parsed = parse_session_cookie(Some(fresh.value.as_str()));
    assert!(matches!(current_user_id(parsed, Some(v)), Ok(_)));
}

#[test]
fn unchecked_cookie_reads_a_bare_uuid() {
    assert!(matches!(
        current_user_id_unchecked(Some("01234567-89ab-cdef-0123-456789abcdef")),
        Ok(u) if u == UID
    ));
    assert!(matches!(current_user_id_unchecked(Some("01234567-89ab-cdef-0123-456789abcdef:1")), Ok(u) if u == UID));
    assert!(matches!(current_user_id_unchecked(Some("nope:1")), Err(AppError::Unauthorized)));
    assert!(matches!(current_user_id_unchecked(None), Err(AppError::Unauthorized)));
}

#[test]
fn bearer_header_yields_token() {
    assert_eq!(bearer_token("Bearer simu_abc"), Some("simu_abc".to_string()));
    assert_eq!(bearer_token("bearer simu_abc"), None);
    assert_eq!(bearer_token("Basic xyz"), None);
    assert_eq!(bearer_token("Bearer "), Some(String::new()));
}

#[test]
fn api_token_revoked_is_refused() {
    assert!(matches!(api_token_decision(None), None));
    assert!(matches!(api_token_decision(Some((UID, false))), Some(Ok(u)) if u == UID));
    assert!(matches!(api_token_decision(Some((UID, true))), Some(Err(AppError::Unauthorized))));
}

#[test]
fn lock_is_strictly_after_now() {
    assert!(is_locked(Some(101), 100));
    assert!(!is_locked(Some(100), 100));
    assert!(!is_locked(None, 100));
}

#[test]
fn fifth_failure_locks_for_fifteen_minutes() {
    let now = 1_000_000;
    match login_decision(4, None, now, false, false) {
        LoginDecision::Rejected { failed_login_count, locked_until, action } => {
            assert_eq!(failed_login_count, 5);
            assert_eq!(locked_until, Some(now + LOCK_MICROS));
            assert_eq!(action, "login_failed");
        }
        _ => panic!("expected a rejection"),
    }
    match login_decision(1, None, now, false, false) {
        LoginDecision::Rejected { failed_login_count, locked_until, .. } => {
            assert_eq!(failed_login_count, 2);
            assert_eq!(locked_until, None);
        }
        _ => panic!("expected a rejection"),
    }
}

#[test]
fn wrong_second_factor_is_audited_apart() {
    match login_decision(0, None, 5, true, false) {
        LoginDecision::Rejected { action, .. } => assert_eq!(action, "login_failed_mfa"),
        _ => panic!("expected a rejection"),
    }
}

#[test]
fn success_resets_only_when_needed() {
    assert!(matches!(login_decision(0, None, 5, true, true), LoginDecision::Accepted { reset: false }));
    assert!(matches!(login_decision(2, None, 5, true, true), LoginDecision::Accepted { reset: true }));
    assert!(matches!(login_decision(0, Some(1), 5, true, true), LoginDecision::Accepted { reset: true }));
}

#[test]
fn mfa_stage_cases() {
    assert!(matches!(mfa_stage(false, true, Some("123456")), MfaStage::Decided(false)));
    assert!(matches!(mfa_stage(true, false, None), MfaStage::Decided(true)));
    assert!(matches!(mfa_stage(true, true, None), MfaStage::Decided(false)));
    assert!(matches!(mfa_stage(true, true, Some("")), MfaStage::Decided(false)));
    assert!(matches!(mfa_stage(true, true, Some("123456")), MfaStage::CheckCode));
}

#[test]
fn one_time_tokens_used_then_expired() {
    assert!(matches!(check_one_time_token(Some(1), 100, 50), Err(AppError::BadRequest(m)) if m == "token already used"));
    assert!(matches!(check_one_time_token(None, 10, 50), Err(AppError::BadRequest(m)) if m == "token expired"));
    assert!(check_one_time_token(None, 50, 50).is_ok());
    assert!(matches!(check_token_row(None, 1), Err(AppError::BadRequest(m)) if m == "invalid token"));
    assert!(check_token_row(Some((None, 9)), 1).is_ok());
}

#[test]
fn links_drop_trailing_slashes() {
    assert_eq!(
        link_with_token("https://simu.example//", "/verify-email?token=", "abc"),
        "https://simu.example/verify-email?token=abc"
    );
    assert_eq!(link_with_token("http://x", "/reset?token=", "t"), "http://x/reset?token=t");
}

#[test]
fn signup_and_verification_records() {
    assert!(matches!(check_email_free(true), Err(AppError::Conflict(m)) if m == "email already registered"));
    assert!(check_email_free(false).is_ok());
    let u = signup_account(UID, "a@b.c".to_string());
    assert_eq!(u.role, "user");
    assert_eq!(u.session_version, 0);
    assert!(u.email_verified_at.is_none());
    let v = email_verified(u, 77);
    assert_eq!(v.email_verified_at, Some(77));
    let dto = UserDto::from_record(v);
    assert!(dto.email_verified);
    assert_eq!(forgot_password_status(true), 202);
    assert_eq!(forgot_password_status(false), 202);
}

#[test]
fn hashed_password_verifies_and_others_do_not() {
    let h = match hash_password("correct horse") {
        Ok(h) => h,
        Err(_) => panic!("hashing failed"),
    };
    assert!(h.starts_with("$argon2id$"));
    assert!(matches!(verify_password("correct horse", &h), Ok(true)));
    assert!(matches!(verify_password("wrong horse", &h), Ok(false)));
    assert!(matches!(verify_password("x", "not a phc string"), Err(AppError::Other(_))));
}

#[test]
fn request_bodies_are_checked() {
    let ok = SignupInput { email: "ann@example.com".into(), password: "12345678".into() };
    assert!(ok.validate().is_ok());
    let short = SignupInput { email: "ann@example.com".into(), password: "1234567".into() };
    assert!(matches!(short.validate(), Err(v) if v.len() == 1 && v[0].field == "password" && v[0].code == "length"));
    let bad = SignupInput { email: "not-an-email".into(), password: "12345678".into() };
    assert!(matches!(bad.validate(), Err(v) if v.len() == 1 && v[0].field == "email"));
    let both = SignupInput { email: "nope".into(), password: "1".into() };
    match both.validate() {
        Err(v) => {
            let fields: Vec<(&str, &str)> = v.iter().map(|e| (e.field.as_str(), e.code.as_str())).collect();
            assert_eq!(fields, vec![("email", "email"), ("password", "length")]);
        }
        Ok(()) => panic!("expected both failures"),
    }
    let login = LoginInput { email: "a@b.co".into(), password: String::new(), totp_code: None };
    assert!(login.validate().is_err());
    let v = VerifyEmailInput { token: "x".repeat(15) };
    assert!(v.validate().is_err());
    let v = VerifyEmailInput { token: "x".repeat(16) };
    assert!(v.validate().is_ok());
    let c = ChangePasswordInput { current_password: "a".into(), new_password: "b".repeat(129) };
    assert!(c.validate().is_err());
    let r = ResetPasswordInput { token: "t".repeat(43), new_password: "p".repeat(8) };
    assert!(r.validate().is_ok());
    let _ = user();
}

#[test]
fn random_tokens_have_their_lengths() {
    let t = random_url_token();
    assert_eq!(t.len(), 43);
    assert!(t.chars().all(|c| c.is_ascii_alphanumeric() || c == '-' || c == '_'));
    assert_eq!(random_share_token().len(), 32);
    assert_eq!(random_invite_token().len(), 43);
    assert_ne!(random_url_token(), random_url_token());
    let s = random_state();
    assert_eq!(s.len(), 32);
    assert!(s.chars().all(|c| c.is_ascii_hexdigit() && !c.is_ascii_uppercase()));
    assert_eq!(sha256_hex("abc"), "ba7816bf8f01cfea414140de5dae2223b00361a396177a9cb410ff61f20015ad");
}

#[test]
fn reset_token_works_once() {
    let row = redeem_token_row(Some((None, 100)), 50).unwrap_or_else(|_| panic!("redeem"));
    assert_eq!(row, (Some(50), 100));
    assert!(matches!(redeem_token_row(Some(row), 60), Err(AppError::BadRequest(m)) if m == "token already used"));
    assert!(matches!(redeem_token_row(Some((None, 10)), 50), Err(AppError::BadRequest(m)) if m == "token expired"));
    assert!(matches!(redeem_token_row(None, 50), Err(AppError::BadRequest(m)) if m == "invalid token"));
}

#[test]
fn export_leaves_account_secrets_out() {
    let mut u = user();
    u.totp_secret = Some("JBSWY3DPEHPK3PXP".to_string());
    let e = exported_user(u);
    assert_eq!((e.id, e.email.as_str(), e.role.as_str(), e.session_version), (UID, "ann@example.com", "user", 3));
}
