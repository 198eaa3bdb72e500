//! Sign-in through an OAuth 2.0 provider (authorization code flow): the
//! provider settings, the `state` check of the callback, the token request,
//! and the account made for a first sign-in.
use vstd::prelude::*;

use crate::auth::{trim_end_slashes, trim_trailing_slashes, UserRecord};
use crate::error::{bad_request, is_other, lit, AppError};
use crate::text::{chars_of, same_text, string_of};

verus! {

/// The provider settings.
pub struct OAuthConfig {
    pub client_id: String,
    pub client_secret: String,
    pub redirect: String,
    pub authorize: String,
    pub token: String,
    pub userinfo: String,
    pub scope: String,
}

/// The query of the provider's redirect back: the code and the `state`.
pub struct CallbackQuery {
    pub code: String,
    pub state: String,
}

/// The name of the cookie holding the `state` of a sign-in in progress.
pub open spec fn state_cookie() -> Seq<char> {
    "simu_oauth_state"@
}

/// How long the `state` cookie lives, in seconds (10 minutes).
pub const STATE_COOKIE_SECONDS: i64 = 600;

/// The name of the `state` cookie.
pub fn state_cookie_name() -> (r: String)
    ensures
        r@ == state_cookie(),
{
    lit("simu_oauth_state")
}

/// The value of a setting, or its default.
pub open spec fn setting(v: Option<String>, d: Seq<char>) -> Seq<char> {
    match v {
        Some(s) => s@,
        None => d,
    }
}

/// The provider settings from `OAUTH_CLIENT_ID`, `OAUTH_CLIENT_SECRET` and
/// `OAUTH_REDIRECT_URL` (all three required, else OAuth is off) and the
/// authorize, token and user-info URLs and scope, which default to Google's
/// and `openid email profile`.
pub fn load_config(
    client_id: Option<String>,
    client_secret: Option<String>,
    redirect: Option<String>,
    authorize: Option<String>,
    token: Option<String>,
    userinfo: Option<String>,
    scope: Option<String>,
) -> (r: Option<OAuthConfig>)
    ensures
        r is Some <==> (client_id is Some && client_secret is Some && redirect is Some),
        r matches Some(c) ==> {
            &&& c.client_id == client_id->0
            &&& c.client_secret == client_secret->0
            &&& c.redirect == redirect->0
            &&& c.authorize@ == setting(authorize, "https://accounts.google.com/o/oauth2/v2/auth"@)
            &&& c.token@ == setting(token, "https://oauth2.googleapis.com/token"@)
            &&& c.userinfo@ == setting(userinfo, "https://www.googleapis.com/oauth2/v2/userinfo"@)
            &&& c.scope@ == setting(scope, "openid email profile"@)
        },
{
    let client_id = match client_id {
        Some(v) => v,
        None => return None,
    };
    let client_secret = match client_secret {
        Some(v) => v,
        None => return None,
    };
    let redirect = match redirect {
        Some(v) => v,
        None => return None,
    };
    let authorize = match authorize {
        Some(v) => v,
        None => lit("https://accounts.google.com/o/oauth2/v2/auth"),
    };
    let token = match token {
        Some(v) => v,
        None => lit("https://oauth2.googleapis.com/token"),
    };
    let userinfo = match userinfo {
        Some(v) => v,
        None => lit("https://www.googleapis.com/oauth2/v2/userinfo"),
    };
    let scope = match scope {
        Some(v) => v,
        None => lit("openid email profile"),
    };
    Some(OAuthConfig { client_id, client_secret, redirect, authorize, token, userinfo, scope })
}

/// Starting or finishing a sign-in without settings is a 400.
pub fn require_config(cfg: Option<OAuthConfig>) -> (r: Result<OAuthConfig, AppError>)
    ensures
        cfg matches Some(c) ==> r == Ok::<OAuthConfig, AppError>(c),
        cfg is None ==> bad_request(r, "OAuth not configured"@),
{
    match cfg {
        Some(c) => Ok(c),
        None => Err(AppError::BadRequest(lit("OAuth not configured"))),
    }
}

/// The query of the provider's authorization page, in order.
pub fn authorize_params(cfg: &OAuthConfig, state: &str) -> (r: Vec<(String, String)>)
    ensures
        r@.map_values(|p: (String, String)| (p.0@, p.1@)) == seq![
            ("client_id"@, cfg.client_id@),
            ("redirect_uri"@, cfg.redirect@),
            ("response_type"@, "code"@),
            ("scope"@, cfg.scope@),
            ("state"@, state@),
        ],
{
    let mut v: Vec<(String, String)> = Vec::new();
    v.push((lit("client_id"), cfg.client_id.clone()));
    v.push((lit("redirect_uri"), cfg.redirect.clone()));
    v.push((lit("response_type"), lit("code")));
    v.push((lit("scope"), cfg.scope.clone()));
    v.push((lit("state"), lit(state)));
    assert(v@.map_values(|p: (String, String)| (p.0@, p.1@)) =~= seq![
        ("client_id"@, cfg.client_id@),
        ("redirect_uri"@, cfg.redirect@),
        ("response_type"@, "code"@),
        ("scope"@, cfg.scope@),
        ("state"@, state@),
    ]);
    v
}

/// What `Url::parse(base)` gives once each pair is appended to its query by
/// `query_pairs_mut().append_pair` (form-urlencoded), as text; `None` when
/// `base` is not an absolute URL.
pub uninterp spec fn url_with_query(base: Seq<char>, pairs: Seq<(Seq<char>, Seq<char>)>) -> Option<Seq<char>>;

/// The views of (name, value) pairs.
pub open spec fn pair_texts(v: Seq<(String, String)>) -> Seq<(Seq<char>, Seq<char>)> {
    v.map_values(|p: (String, String)| (p.0@, p.1@))
}

/// `url::Url::parse(base)`, then `append_pair` of each pair through
/// `query_pairs_mut()`, then `to_string()`.
#[verifier::external_body]
fn url_append_query(base: &str, pairs: &Vec<(String, String)>) -> (r: Option<String>)
    ensures
        match r {
            Some(u) => url_with_query(base@, pair_texts(pairs@)) == Some(u@),
            None => url_with_query(base@, pair_texts(pairs@)) is None,
        },
{
    let mut u = match url::Url::parse(base) {
        Ok(u) => u,
        Err(_) => return None,
    };
    {
        let mut q = u.query_pairs_mut();
        for (name, value) in pairs {
            q.append_pair(name, value);
        }
    }
    Some(u.to_string())
}

/// The provider's authorization page for a new sign-in with `state`: the
/// configured URL with the client id, redirect, `response_type=code`, scope
/// and state appended to its query; a configured URL that does not parse is
/// a server error.
pub fn authorize_url(cfg: &OAuthConfig, state: &str) -> (r: Result<String, AppError>)
    ensures
        match url_with_query(
            cfg.authorize@,
            seq![
                ("client_id"@, cfg.client_id@),
                ("redirect_uri"@, cfg.redirect@),
                ("response_type"@, "code"@),
                ("scope"@, cfg.scope@),
                ("state"@, state@),
            ],
        ) {
            Some(u) => r matches Ok(t) && t@ == u,
            None => is_other(r),
        },
{
    let params = authorize_params(cfg, state);
    match url_append_query(cfg.authorize.as_str(), &params) {
        Some(u) => Ok(u),
        None => Err(AppError::Other(lit("authorize url"))),
    }
}

/// The callback's `state` must be the one stored in the cookie when the
/// sign-in started: a missing cookie and a different value are 400s.
pub fn check_state(saved: Option<&str>, returned: &str) -> (r: Result<(), AppError>)
    ensures
        saved is None ==> bad_request(r, "missing state cookie"@),
        saved matches Some(s) && s@ != returned@ ==> bad_request(r, "state mismatch"@),
        saved matches Some(s) && s@ == returned@ ==> r is Ok,
{
    match saved {
        None => Err(AppError::BadRequest(lit("missing state cookie"))),
        Some(s) => if !same_text(s, returned) {
            Err(AppError::BadRequest(lit("state mismatch")))
        } else {
            Ok(())
        },
    }
}

/// The form of the token request, in order.
pub fn token_form(cfg: &OAuthConfig, code: &str) -> (r: Vec<(String, String)>)
    ensures
        r@.map_values(|p: (String, String)| (p.0@, p.1@)) == seq![
            ("code"@, code@),
            ("client_id"@, cfg.client_id@),
            ("client_secret"@, cfg.client_secret@),
            ("redirect_uri"@, cfg.redirect@),
            ("grant_type"@, "authorization_code"@),
        ],
{
    let mut v: Vec<(String, String)> = Vec::new();
    v.push((lit("code"), lit(code)));
    v.push((lit("client_id"), cfg.client_id.clone()));
    v.push((lit("client_secret"), cfg.client_secret.clone()));
    v.push((lit("redirect_uri"), cfg.redirect.clone()));
    v.push((lit("grant_type"), lit("authorization_code")));
    assert(v@.map_values(|p: (String, String)| (p.0@, p.1@)) =~= seq![
        ("code"@, code@),
        ("client_id"@, cfg.client_id@),
        ("client_secret"@, cfg.client_secret@),
        ("redirect_uri"@, cfg.redirect@),
        ("grant_type"@, "authorization_code"@),
    ]);
    v
}

/// The account made on a first sign-in: a plain user whose address the
/// provider has verified, with no second factor and a clean lockout state;
/// its password is a hash of a placeholder that the user can reset.
pub fn oauth_account(id: u128, email: String, now: i64) -> (r: UserRecord)
    ensures
        r == (UserRecord {
            id,
            email,
            role: r.role,
            email_verified_at: Some(now),
            session_version: 0,
            totp_secret: None,
            totp_enabled: false,
            failed_login_count: 0,
            locked_until: None,
        }),
        r.role@ == "user"@,
{
    UserRecord {
        id,
        email,
        role: lit("user"),
        email_verified_at: Some(now),
        session_version: 0,
        totp_secret: None,
        totp_enabled: false,
        failed_login_count: 0,
        locked_until: None,
    }
}

/// The placeholder password of accounts made through OAuth.
pub fn placeholder_password() -> (r: String)
    ensures
        r@ == "oauth_placeholder_please_reset"@,
{
    lit("oauth_placeholder_please_reset")
}

/// Where the browser goes after a sign-in: the public base URL without its
/// trailing `/`.
pub fn landing_url(public_base_url: &str) -> (r: String)
    ensures
        r@ == trim_trailing_slashes(public_base_url@),
{
    string_of(&trim_end_slashes(&chars_of(public_base_url)))
}

} // verus!
