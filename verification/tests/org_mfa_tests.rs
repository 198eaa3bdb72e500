use simu_backend::auth::UserRecord;
use simu_backend::error::AppError;
use simu_backend::mfa::{
    activated, activation_secret, build_totp, check_code, check_code_at, deactivated, disabling_secret,
    enrolled, new_enrollment, verify_at, verify_for, TotpAlgorithm,
};
use simu_backend::orgs::{
    authorize_grant, check_accept, check_remove, check_role, check_slug_free, default_member_role,
    founder_role, invite_expires_at, invite_url, is_manager, lookup_email, member_dtos, org_stats,
    slug_ok, CreateOrgInput, MembershipRecord, INVITE_TTL_MICROS,
};

const SECRET: &str = "JBSWY3DPEHPK3PXPJBSWY3DPEHPK3PXP";

fn user(secret: Option<&str>, enabled: bool) -> UserRecord {
    UserRecord {
        id: 1,
        email: "ann@example.com".to_string(),
        role: "user".to_string(),
        email_verified_at: None,
        session_version: 0,
        totp_secret: secret.map(|s| s.to_string()),
        totp_enabled: enabled,
        failed_login_count: 0,
        locked_until: None,
    }
}

#[test]
fn slugs_follow_the_pattern() {
    assert!(slug_ok("ab"));
    assert!(slug_ok("a-b-9"));
    assert!(slug_ok(&"a".repeat(40)));
    assert!(!slug_ok(&"a".repeat(41)));
    assert!(!slug_ok("a"));
    assert!(!slug_ok("-ab"));
    assert!(!slug_ok("Ab"));
    assert!(!slug_ok("ab_c"));
    assert!(!slug_ok("ab\n"));
    let ok = CreateOrgInput { name: "Acme".into(), slug: "acme".into() };
    assert!(ok.validate().is_ok());
    let bad = CreateOrgInput { name: "Acme".into(), slug: "ACME".into() };
    assert!(matches!(bad.validate(), Err(v) if v.len() == 1 && v[0].field == "slug" && v[0].code == "regex"));
    let empty = CreateOrgInput { name: String::new(), slug: "acme".into() };
    assert!(matches!(empty.validate(), Err(v) if v.len() == 1 && v[0].field == "name"));
    let short = CreateOrgInput { name: "Acme".into(), slug: "A".into() };
    assert!(matches!(short.validate(), Err(v) if v.len() == 2 && v[0].code == "length" && v[1].code == "regex"));
    assert!(matches!(check_slug_free(true), Err(AppError::Conflict(m)) if m == "slug already taken"));
}

#[test]
fn roles_and_who_manages() {
    assert_eq!(default_member_role(), "member");
    assert_eq!(founder_role(), "owner");
    assert!(is_manager("owner") && is_manager("admin") && !is_manager("member"));
    assert!(matches!(check_role("admin".into()), Ok(r) if r == "admin"));
    assert!(matches!(check_role("boss".into()), Err(AppError::BadRequest(m)) if m == "role must be owner|admin|member"));
    assert!(matches!(authorize_grant("member", "member".into()), Err(AppError::Unauthorized)));
    assert!(matches!(authorize_grant("owner", "boss".into()), Err(AppError::BadRequest(_))));
    assert!(authorize_grant("admin", "owner".into()).is_ok());
    assert!(check_remove(5, "member", 5).is_ok());
    assert!(check_remove(5, "admin", 6).is_ok());
    assert!(matches!(check_remove(5, "member", 6), Err(AppError::Unauthorized)));
}

#[test]
fn invites_expire_and_match_addresses() {
    assert_eq!(invite_expires_at(10), 10 + INVITE_TTL_MICROS);
    assert_eq!(INVITE_TTL_MICROS, 14 * 24 * 3_600_000_000);
    assert_eq!(invite_url("https://x.io/", "tok"), "https://x.io/invite?token=tok");
    assert!(matches!(check_accept(5, 6, Some("a@b.c"), "a@b.c", false), Err(AppError::BadRequest(m)) if m == "invite expired"));
    assert!(matches!(check_accept(6, 6, None, "a@b.c", false), Err(AppError::Unauthorized)));
    assert!(matches!(check_accept(6, 6, Some("X@B.C"), "a@b.c", false), Err(AppError::BadRequest(m)) if m == "invite email mismatch"));
    assert!(matches!(check_accept(6, 6, Some("A@B.C"), "a@b.c", true), Err(AppError::Conflict(m)) if m == "already a member"));
    assert!(check_accept(6, 6, Some("A@B.C"), "a@b.c", false).is_ok());
}

#[test]
fn member_list_joins_emails() {
    let users = vec![(1u128, "one@x".to_string()), (2u128, "two@x".to_string()), (1u128, "uno@x".to_string())];
    assert_eq!(lookup_email(&users, 1), "uno@x");
    assert_eq!(lookup_email(&users, 3), "");
    let members = vec![
        MembershipRecord { id: 10, org_id: 7, user_id: 2, role: "owner".into(), created_at: 1 },
        MembershipRecord { id: 11, org_id: 7, user_id: 3, role: "member".into(), created_at: 2 },
    ];
    let dtos = member_dtos(members, &users);
    assert_eq!(dtos.len(), 2);
    assert_eq!(dtos[0].email, "two@x");
    assert_eq!(dtos[0].role, "owner");
    assert_eq!(dtos[1].email, "");
    let stats = org_stats(3, &vec![10, 20]);
    assert_eq!((stats.members, stats.files, stats.total_bytes), (3, 2, 30));
}

#[test]
fn totp_needs_a_long_secret_and_plain_account() {
    assert!(build_totp(SECRET, "ann@example.com").is_ok());
    assert!(matches!(build_totp("JBSWY3DP", "ann@example.com"), Err(AppError::Other(_))));
    assert!(matches!(build_totp("not base32!", "ann@example.com"), Err(AppError::Other(_))));
    assert!(matches!(build_totp(SECRET, "a:b"), Err(AppError::Other(_))));
}

#[test]
fn codes_checked_against_the_clock() {
    assert!(matches!(verify_for(&user(None, true), "123456"), Ok(false)));
    assert!(matches!(verify_for(&user(Some("JBSWY3DP"), true), "123456"), Err(AppError::Other(_))));
    let bytes = totp_rs::Secret::Encoded(SECRET.to_string()).to_bytes().expect("secret");
    let totp = totp_rs::TOTP::new(totp_rs::Algorithm::SHA1, 6, 1, 30, bytes, Some("Simu".into()), "ann@example.com".into())
        .expect("totp");
    let code = totp.generate_current().expect("clock");
    assert!(matches!(verify_for(&user(Some(SECRET), true), &code), Ok(true)));
    assert!(check_code(SECRET, "ann@example.com", &code).is_ok());
    assert!(matches!(verify_for(&user(Some(SECRET), true), "abcdef"), Ok(false)));
    assert!(matches!(check_code(SECRET, "ann@example.com", "abcdef"), Err(AppError::BadRequest(m)) if m == "invalid code"));
}

#[test]
fn enrollment_gives_a_usable_secret() {
    let d = new_enrollment(false, "ann@example.com").unwrap_or_else(|_| panic!("enroll"));
    assert_eq!(d.secret.len(), 32);
    assert!(d.otpauth_url.starts_with("otpauth://totp/Simu:ann%40example.com?secret="));
    assert!(build_totp(&d.secret, "ann@example.com").is_ok());
    assert!(matches!(new_enrollment(true, "ann@example.com"), Err(AppError::Conflict(m)) if m == "MFA already enabled"));
    assert!(matches!(new_enrollment(false, "a:b@example.com"), Err(AppError::Other(_))));
}

#[test]
fn activation_and_disabling_steps() {
    assert!(matches!(activation_secret(&user(Some(SECRET), true)), Err(AppError::Conflict(m)) if m == "MFA already active"));
    assert!(matches!(activation_secret(&user(None, false)), Err(AppError::BadRequest(m)) if m == "call /mfa/enroll first"));
    assert!(matches!(activation_secret(&user(Some(SECRET), false)), Ok(s) if s == SECRET));
    assert!(matches!(disabling_secret(&user(Some(SECRET), false)), Err(AppError::BadRequest(m)) if m == "MFA not active"));
    assert!(matches!(disabling_secret(&user(None, true)), Err(AppError::Other(_))));
    let u = enrolled(user(None, false), SECRET.to_string());
    let u = activated(u);
    assert!(u.totp_enabled);
    let u = deactivated(u);
    assert!(!u.totp_enabled && u.totp_secret.is_none());
    assert!(matches!(verify_for(&u, "123456"), Ok(false)));
}

#[test]
fn codes_checked_at_a_given_time() {
    let bytes = totp_rs::Secret::Encoded(SECRET.to_string()).to_bytes().expect("secret");
    let totp = totp_rs::TOTP::new(totp_rs::Algorithm::SHA1, 6, 1, 30, bytes, Some("Simu".into()), "ann@example.com".into())
        .expect("totp");
    let t: u64 = 1_700_000_000;
    let code = totp.generate(t);
    assert!(matches!(verify_at(&user(Some(SECRET), true), &code, t), Ok(true)));
    assert!(matches!(verify_at(&user(Some(SECRET), true), &code, t + 30), Ok(true)));
    assert!(matches!(verify_at(&user(Some(SECRET), true), &code, t + 300), Ok(false)));
    assert!(matches!(verify_at(&user(Some(SECRET), true), &code, 10), Err(AppError::Other(_))));
    assert!(matches!(verify_at(&user(None, true), &code, t), Ok(false)));
    assert!(check_code_at(SECRET, "ann@example.com", &code, t).is_ok());
    assert!(matches!(check_code_at(SECRET, "ann@example.com", &code, t + 300), Err(AppError::BadRequest(m)) if m == "invalid code"));
    assert!(matches!(check_code_at(SECRET, "ann@example.com", &code, 0), Err(AppError::Other(_))));
    let p = build_totp(SECRET, "ann@example.com").unwrap_or_else(|_| panic!("params"));
    assert!(p.algorithm == TotpAlgorithm::Sha1);
    assert_eq!((p.digits, p.skew, p.step), (6, 1, 30));
    assert_eq!(p.issuer.as_deref(), Some("Simu"));
    assert_eq!(p.account_name, "ann@example.com");
}

#[test]
fn enrollment_url_lists_secret_and_issuer() {
    let d = new_enrollment(false, "a b@example.com").unwrap_or_else(|_| panic!("enroll"));
    assert_eq!(d.otpauth_url, format!("otpauth://totp/Simu:a%20b%40example.com?secret={}&issuer=Simu", d.secret));
}
