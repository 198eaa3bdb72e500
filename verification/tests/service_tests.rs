use simu_backend::admin::{
    action_filter, audit_csv, backup_command, backup_key, check_account_role, csv_escape,
    lock_account, require_admin, search_users, unlock_account, user_detail, UserSummary,
    ADMIN_LOCK_MICROS,
};
use simu_backend::audit::AuditDto;
use simu_backend::auth::{is_locked, UserRecord};
use simu_backend::chat::{
    check_owner, conversation_fields, reply_text, split_words, synthesize_response,
    CreateConversationInput,
};
use simu_backend::cli::{arg, done_message, parse_admin_command, AdminCommand};
use simu_backend::config::{config_from_vars, ConfigVars};
use simu_backend::error::AppError;
use simu_backend::events::{forward_step, nats_subject, relay_inbound, BusReceive, EventMsg, ForwardAction};
use simu_backend::housekeeping::{purge_due, sweep_cutoffs, token_is_stale, DAY_MICROS};
use simu_backend::mail::{email_verification_mail, mail_settings, new_ip_login_mail, password_reset_mail};
use simu_backend::oauth::{authorize_url, check_state, landing_url, load_config, oauth_account, token_form};
use simu_backend::server::{
    docs_page, not_found_message, options_from_env, readiness, request_id, security_headers,
    should_rewrite, smtp_step, smtp_target, with_request_id, BuildOpts, SmtpAction, SmtpEvent,
    SmtpProbe,
};
use simu_backend::validation::normalize_email;

fn account() -> UserRecord {
    UserRecord {
        id: 9,
        email: "ann@example.com".to_string(),
        role: "user".to_string(),
        email_verified_at: Some(1),
        session_version: 4,
        totp_secret: None,
        totp_enabled: false,
        failed_login_count: 2,
        locked_until: None,
    }
}

#[test]
fn stub_model_echoes_words() {
    assert_eq!(synthesize_response("  hello   big\tworld \n"), vec!["You said: ", "hello ", "big ", "world "]);
    assert_eq!(synthesize_response(" \t "), vec!["(empty prompt)"]);
    assert_eq!(synthesize_response(""), vec!["(empty prompt)"]);
    let tokens = synthesize_response("a b");
    assert_eq!(reply_text(&tokens), "You said: a b ");
    let words = split_words("x  yz");
    assert_eq!(words, vec![vec!['x'], vec!['y', 'z']]);
}

#[test]
fn conversations_default_title_and_model() {
    let (title, model) = conversation_fields(CreateConversationInput { title: None, model: None }, "house-model".into());
    assert_eq!(title, "");
    assert_eq!(model, "house-model");
    let (title, model) =
        conversation_fields(CreateConversationInput { title: Some("t".into()), model: Some("m".into()) }, "d".into());
    assert_eq!((title.as_str(), model.as_str()), ("t", "m"));
    assert!(check_owner(1, 1).is_ok());
    assert!(matches!(check_owner(1, 2), Err(AppError::NotFound)));
}

#[test]
fn admin_checks() {
    assert!(require_admin("admin").is_ok());
    assert!(matches!(require_admin("user"), Err(AppError::Unauthorized)));
    assert!(check_account_role("user").is_ok());
    assert!(matches!(check_account_role("owner"), Err(AppError::BadRequest(m)) if m == "role must be admin|user"));
    assert_eq!(action_filter(Some(String::new())), None);
    assert_eq!(action_filter(Some("login".into())), Some("login".to_string()));
}

#[test]
fn user_search_ignores_case() {
    let rows = || {
        vec![
            UserSummary { id: 1, email: "Ann@Example.com".into(), role: "user".into(), created_at: 0 },
            UserSummary { id: 2, email: "bob@other.org".into(), role: "admin".into(), created_at: 0 },
        ]
    };
    let found = search_users(rows(), Some("EXAMPLE".into()));
    assert_eq!(found.len(), 1);
    assert_eq!(found[0].id, 1);
    assert_eq!(search_users(rows(), Some(String::new())).len(), 2);
    assert_eq!(search_users(rows(), None).len(), 2);
}

#[test]
fn admin_lock_and_unlock() {
    let locked = lock_account(account(), 100);
    assert_eq!(locked.locked_until, Some(100 + ADMIN_LOCK_MICROS));
    assert_eq!(locked.session_version, 5);
    assert!(is_locked(locked.locked_until, 100 + ADMIN_LOCK_MICROS - 1));
    let d = user_detail(&locked, None, 1, 2, vec![], 0, 200);
    assert!(d.locked && d.email_verified);
    let open = unlock_account(locked);
    assert_eq!(open.locked_until, None);
    assert_eq!(open.failed_login_count, 0);
    assert!(!user_detail(&open, None, 1, 2, vec![], 0, 200).locked);
}

#[test]
fn csv_export_quotes_fields() {
    assert_eq!(csv_escape("plain"), "plain");
    assert_eq!(csv_escape("a,b"), "\"a,b\"");
    assert_eq!(csv_escape("say \"hi\""), "\"say \"\"hi\"\"\"");
    assert_eq!(csv_escape("two\nlines"), "\"two\nlines\"");
    let rows = vec![AuditDto {
        id: 1,
        user_id: None,
        action: "login".into(),
        ip: Some("1.2.3.4".into()),
        user_agent: Some("Mozilla, 5".into()),
        meta: "{}".into(),
        created_at: 0,
    }];
    assert_eq!(
        audit_csv(&rows).as_deref(),
        Some("id,user_id,action,ip,user_agent,created_at\n00000000-0000-0000-0000-000000000001,,login,1.2.3.4,\"Mozilla, 5\",1970-01-01T00:00:00+00:00\n")
    );
    assert_eq!(audit_csv(&vec![]).as_deref(), Some("id,user_id,action,ip,user_agent,created_at\n"));
}

#[test]
fn backups_are_named_by_time() {
    assert_eq!(backup_key(0).as_deref(), Some("backups/19700101T000000Z.sql.gz"));
    assert_eq!(
        backup_command("postgres://x"),
        "pg_dump --no-owner --no-privileges --format=plain 'postgres://x' | gzip -9"
    );
}

#[test]
fn config_needs_a_long_hex_secret() {
    let vars = |secret: Option<&str>, db: Option<&str>| ConfigVars {
        session_secret: secret.map(|s| s.to_string()),
        database_url: db.map(|s| s.to_string()),
        bind_addr: None,
        s3_endpoint: Some("http://s3".into()),
        s3_access_key: Some("ak".into()),
        s3_secret_key: Some("sk".into()),
        s3_bucket: None,
        nats_url: None,
        public_base_url: None,
    };
    let good = "00".repeat(64);
    let cfg = config_from_vars(vars(Some(&good), Some("postgres://db"))).unwrap_or_else(|e| panic!("{e}"));
    assert_eq!(cfg.bind_addr, "0.0.0.0:8080");
    assert_eq!(cfg.s3_bucket, "simu-uploads");
    assert_eq!(cfg.public_base_url, "http://localhost:3000");
    assert_eq!(cfg.session_secret.len(), 64);
    assert!(matches!(config_from_vars(vars(None, Some("x"))), Err(m) if m.starts_with("SESSION_SECRET required")));
    assert!(matches!(config_from_vars(vars(Some("zz"), Some("x"))), Err(m) if m == "SESSION_SECRET must be hex"));
    assert!(matches!(config_from_vars(vars(Some("00"), Some("x"))), Err(m) if m == "SESSION_SECRET must be ≥ 64 bytes"));
    assert!(matches!(config_from_vars(vars(Some(&good), None)), Err(m) if m == "DATABASE_URL required"));
}

#[test]
fn mail_settings_and_texts() {
    let s = mail_settings(None, Some("2525"), None, Some("u".into()), None);
    assert_eq!(s.host, "localhost");
    assert_eq!(s.port, 2525);
    assert_eq!(s.from, "noreply@simu.local");
    assert!(s.credentials.is_none());
    assert_eq!(mail_settings(None, Some("99999"), None, None, None).port, 1025);
    let m = password_reset_mail("http://x/reset?token=t");
    assert_eq!(m.subject, "Reset your simu password");
    assert!(m.body.contains("\n\n  http://x/reset?token=t\n\nLink expires in 60 minutes."));
    let m = email_verification_mail("u");
    assert_eq!(m.body, "Welcome to simu!\n\nConfirm your email by clicking:\n\n  u\n\nLink expires in 48 hours.\n\n— simu");
    let m = new_ip_login_mail("1.1.1.1", "curl");
    assert!(m.body.contains("IP:         1.1.1.1\n  Device/UA:  curl"));
}

#[test]
fn events_bridge_rules() {
    assert_eq!(nats_subject(None), "simu.events");
    assert_eq!(nats_subject(Some("x".into())), "x");
    assert!(!relay_inbound(Some("me"), "me"));
    assert!(relay_inbound(Some("other"), "me"));
    assert!(relay_inbound(None, "me"));
    assert!(matches!(forward_step(BusReceive::Event(EventMsg::Ping { at_ms: 3 })), ForwardAction::Send(EventMsg::Ping { at_ms: 3 })));
    assert!(matches!(forward_step(BusReceive::Lagged(4)), ForwardAction::Skip));
    assert!(matches!(forward_step(BusReceive::Closed), ForwardAction::Stop));
}

#[test]
fn housekeeping_cutoffs() {
    let c = sweep_cutoffs(100 * DAY_MICROS);
    assert_eq!(c.trash_before, 70 * DAY_MICROS);
    assert_eq!(c.audit_before, 10 * DAY_MICROS);
    assert_eq!(c.deliveries_before, 70 * DAY_MICROS);
    assert!(token_is_stale(5, None, 6));
    assert!(token_is_stale(50, Some(1), 6));
    assert!(!token_is_stale(6, None, 6));
    assert!(purge_due(Some(1), 2));
    assert!(!purge_due(Some(2), 2));
    assert!(!purge_due(None, 2));
}

#[test]
fn oauth_flow_pieces() {
    assert!(load_config(None, Some("s".into()), Some("r".into()), None, None, None, None).is_none());
    let cfg = load_config(Some("id".into()), Some("s".into()), Some("r".into()), None, None, None, None).expect("cfg");
    assert_eq!(cfg.scope, "openid email profile");
    assert_eq!(cfg.token, "https://oauth2.googleapis.com/token");
    let form = token_form(&cfg, "c");
    assert_eq!(form[0], ("code".to_string(), "c".to_string()));
    assert_eq!(form[4], ("grant_type".to_string(), "authorization_code".to_string()));
    assert!(matches!(check_state(None, "x"), Err(AppError::BadRequest(m)) if m == "missing state cookie"));
    assert!(matches!(check_state(Some("y"), "x"), Err(AppError::BadRequest(m)) if m == "state mismatch"));
    assert!(check_state(Some("x"), "x").is_ok());
    let u = oauth_account(3, normalize_email("  Ann@Example.COM "), 77);
    assert_eq!(u.email, "ann@example.com");
    assert_eq!(u.role, "user");
    assert_eq!(u.email_verified_at, Some(77));
    assert_eq!(landing_url("https://app.example//"), "https://app.example");
    let cfg = load_config(
        Some("id".into()),
        Some("s".into()),
        Some("http://a/cb".into()),
        Some("https://accounts.example/auth?x=1".into()),
        None,
        None,
        None,
    )
    .expect("cfg");
    assert!(matches!(
        authorize_url(&cfg, "st"),
        Ok(u) if u == "https://accounts.example/auth?x=1&client_id=id&redirect_uri=http%3A%2F%2Fa%2Fcb&response_type=code&scope=openid+email+profile&state=st"
    ));
    let bad = load_config(Some("id".into()), Some("s".into()), Some("r".into()), Some("not a url".into()), None, None, None)
        .expect("cfg");
    assert!(matches!(authorize_url(&bad, "st"), Err(AppError::Other(_))));
}

#[test]
fn admin_cli_arguments() {
    let args = |v: &[&str]| v.iter().map(|s| s.to_string()).collect::<Vec<String>>();
    assert_eq!(arg(&args(&["p", "--email", "a@b"]), "--email"), Some("a@b".to_string()));
    assert_eq!(arg(&args(&["p", "--email"]), "--email"), None);
    assert_eq!(arg(&args(&["p", "--email", "x", "--email", "y"]), "--email"), Some("x".to_string()));
    match parse_admin_command(&args(&["simu-admin", "promote", "--email", " Ann@X.io "])) {
        Ok(AdminCommand::Promote { email }) => assert_eq!(email, "ann@x.io"),
        _ => panic!("expected promote"),
    }
    assert!(matches!(parse_admin_command(&args(&["simu-admin", "promote"])), Err(e) if e.code == 2 && e.message == "--email required"));
    assert!(matches!(parse_admin_command(&args(&["simu-admin", "create", "--email", "a@b"])), Err(e) if e.code == 101));
    assert!(matches!(
        parse_admin_command(&args(&["simu-admin", "create", "--email", "a@b", "--password", "short"])),
        Err(e) if e.code == 2 && e.message == "--password must be ≥ 8 chars"
    ));
    assert!(matches!(parse_admin_command(&args(&["simu-admin", "drop", "--email", "a@b"])), Err(e) if e.code == 2 && e.message.starts_with("usage:")));
    let cmd = parse_admin_command(&args(&["simu-admin", "create", "--email", "a@b", "--password", "longenough"]))
        .unwrap_or_else(|_| panic!("create"));
    assert_eq!(done_message(&cmd), "created admin: a@b");
}

#[test]
fn http_layer_rules() {
    let d = BuildOpts::default();
    assert_eq!((d.rate_limit_rps, d.rate_limit_burst, d.production_layers), (10, 30, true));
    assert!(d.rate_limit_usable());
    let o = options_from_env(Some("+20"), Some("notanumber"));
    assert_eq!((o.rate_limit_rps, o.rate_limit_burst), (20, 30));
    let h = security_headers(Some("text/html; charset=utf-8"));
    assert_eq!(h.len(), 6);
    assert!(h[5].1.starts_with("default-src 'self'"));
    let h = security_headers(Some("application/json"));
    assert_eq!(h[5].1, "default-src 'none'; frame-ancestors 'none'");
    assert_eq!(h[0], ("x-content-type-options".to_string(), "nosniff".to_string()));
    assert!(should_rewrite(404, Some("application/json")));
    assert!(!should_rewrite(200, Some("application/json")));
    assert!(!should_rewrite(500, Some("text/plain")));
    assert!(!should_rewrite(500, None));
    assert_eq!(request_id(None, Some("h".into())), Some("h".to_string()));
    assert_eq!(request_id(Some("l".into()), Some("h".into())), Some("l".to_string()));
    assert_eq!(
        with_request_id(b"{\"error\":\"x\"}".to_vec(), Some("abc".into())),
        b"{\"error\":\"x\",\"request_id\":\"abc\"}".to_vec()
    );
    assert_eq!(
        with_request_id(b"{\"request_id\":\"old\"}".to_vec(), Some("abc".into())),
        b"{\"request_id\":\"old\"}".to_vec()
    );
    assert_eq!(with_request_id(b"oops".to_vec(), Some("abc".into())), b"oops".to_vec());
    assert_eq!(with_request_id(b"{ \"error\" : 1 }".to_vec(), None), b"{\"error\":1}".to_vec());
    assert_eq!(with_request_id(b"[1, 2]".to_vec(), Some("abc".into())), b"[1,2]".to_vec());
    assert_eq!(not_found_message("/nope"), "no route for /nope");
    assert_eq!(docs_page().0, "text/html; charset=utf-8");
}

#[test]
fn readiness_and_smtp_probe() {
    let r = readiness(true, true, false);
    assert_eq!((r.status, r.db.as_str(), r.s3.as_str(), r.smtp.as_str()), (200, "ok", "ok", "fail"));
    assert_eq!(readiness(true, false, true).status, 503);
    let (host, port) = smtp_target(None, Some("x"));
    assert_eq!((host.as_str(), port), ("localhost", 25));
    let (s, a) = smtp_step(SmtpProbe::AwaitGreeting, SmtpEvent::Read(b"220 mail ready".to_vec()));
    assert!(matches!(s, SmtpProbe::AwaitHello));
    assert!(matches!(a, SmtpAction::Send(ref b) if b == b"EHLO simu.local\r\n"));
    let (s, a) = smtp_step(s, SmtpEvent::Read(b"250 hi".to_vec()));
    assert!(matches!(s, SmtpProbe::Done(true)) && matches!(a, SmtpAction::Quit));
    let (s, a) = smtp_step(SmtpProbe::AwaitGreeting, SmtpEvent::Read(b"554 no".to_vec()));
    assert!(matches!(s, SmtpProbe::Done(false)) && matches!(a, SmtpAction::Finish(false)));
    let (_, a) = smtp_step(SmtpProbe::AwaitHello, SmtpEvent::Failed);
    assert!(matches!(a, SmtpAction::Finish(false)));
}
