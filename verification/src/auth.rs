//! Accounts and sessions: request bodies and their checks, the session cookie
//! (`user_id:session_version`), the session check, API bearer tokens, the
//! login lockout rules and one-time tokens (e-mail verification and password
//! reset).
use vstd::prelude::*;

use argon2::password_hash::rand_core::OsRng;
use argon2::password_hash::{PasswordHash, PasswordHasher as _, PasswordVerifier as _, SaltString};
use argon2::Argon2;

use crate::crypto::utf8;
use crate::error::{bad_request, is_other, lit, AppError};
use crate::ids::{lemma_uuid_text_no_colon, uuid_parse, uuid_parse_spec, uuid_text, uuid_to_string};
use crate::text::{
    all_digits, chars_of, decimal, digits_value, is_digit, parse_i32, parse_i32_spec, push_chars,
    push_char, push_i64, signed_decimal, string_of,
};
use crate::validation::{
    email_ok, failure_if, failure_views, is_valid_email, len_within, length_ok, note, outcome,
    ValidationError,
};

verus! {

/// Microseconds in one minute; instants are microseconds since the Unix epoch.
pub open spec fn minute() -> int {
    60_000_000
}

/// How long a session cookie lives, in days.
pub const SESSION_TTL_DAYS: i64 = 30;

/// Failed logins in a row that lock an account.
pub const LOCK_THRESHOLD: i32 = 5;

/// How long a lockout lasts, in microseconds (15 minutes).
pub const LOCK_MICROS: i64 = 900_000_000;

/// The name of the session cookie.
pub fn session_cookie_name() -> (r: String)
    ensures
        r@ == "simu_session"@,
{
    lit("simu_session")
}

/// The fields of a stored account that the rules read.
pub struct UserRecord {
    pub id: u128,
    pub email: String,
    pub role: String,
    pub email_verified_at: Option<i64>,
    pub session_version: i32,
    pub totp_secret: Option<String>,
    pub totp_enabled: bool,
    pub failed_login_count: i32,
    pub locked_until: Option<i64>,
}

/// The account as the data export (`GET /me/export`) writes it: neither its
/// password hash nor its second-factor secret leaves.
pub struct ExportedUser {
    pub id: u128,
    pub email: String,
    pub role: String,
    pub email_verified_at: Option<i64>,
    pub session_version: i32,
}

/// The export's view of an account: its id, address, role, verification
/// time and session version.
pub fn exported_user(u: UserRecord) -> (r: ExportedUser)
    ensures
        r == (ExportedUser {
            id: u.id,
            email: u.email,
            role: u.role,
            email_verified_at: u.email_verified_at,
            session_version: u.session_version,
        }),
{
    ExportedUser {
        id: u.id,
        email: u.email,
        role: u.role,
        email_verified_at: u.email_verified_at,
        session_version: u.session_version,
    }
}

/// The account as shown to its owner.
pub struct UserDto {
    pub id: u128,
    pub email: String,
    pub role: String,
    pub email_verified: bool,
    pub totp_enabled: bool,
}

impl UserDto {
    /// The public view of an account: verified when a verification time is set.
    pub fn from_record(m: UserRecord) -> (r: UserDto)
        ensures
            r.id == m.id,
            r.email == m.email,
            r.role == m.role,
            r.email_verified == m.email_verified_at is Some,
            r.totp_enabled == m.totp_enabled,
    {
        UserDto {
            id: m.id,
            email: m.email,
            role: m.role,
            email_verified: m.email_verified_at.is_some(),
            totp_enabled: m.totp_enabled,
        }
    }
}

/// `POST /auth/signup`.
pub struct SignupInput {
    pub email: String,
    pub password: String,
}

/// `POST /auth/login`.
pub struct LoginInput {
    pub email: String,
    pub password: String,
    pub totp_code: Option<String>,
}

/// `POST /auth/email/verify`.
pub struct VerifyEmailInput {
    pub token: String,
}

/// `POST /auth/password/change`.
pub struct ChangePasswordInput {
    pub current_password: String,
    pub new_password: String,
}

/// `POST /auth/password/forgot`.
pub struct ForgotPasswordInput {
    pub email: String,
}

/// `POST /auth/password/reset`.
pub struct ResetPasswordInput {
    pub token: String,
    pub new_password: String,
}

impl SignupInput {
    /// Whether the body passes its checks.
    pub open spec fn valid(&self) -> bool {
        email_ok(self.email@) && len_within(self.password@, 8, 128)
    }

    /// The failed checks, in field order, as (field, kind).
    pub open spec fn failures(&self) -> Seq<(Seq<char>, Seq<char>)> {
        failure_if(email_ok(self.email@), "email"@, "email"@) + failure_if(len_within(self.password@, 8, 128), "password"@, "length"@)
    }

    /// Runs every check; fails with all the failed ones.
    pub fn validate(&self) -> (r: Result<(), Vec<ValidationError>>)
        ensures
            r is Ok <==> self.valid(),
            r matches Err(v) ==> failure_views(v@) == self.failures(),
    {
        let mut errs: Vec<ValidationError> = Vec::new();
        note(&mut errs, is_valid_email(self.email.as_str()), "email", "email");
        note(&mut errs, length_ok(self.password.as_str(), 8, 128), "password", "length");
        outcome(errs)
    }
}

impl LoginInput {
    /// Whether the body passes its checks.
    pub open spec fn valid(&self) -> bool {
        email_ok(self.email@) && len_within(self.password@, 1, 128)
    }

    /// The failed checks, in field order, as (field, kind).
    pub open spec fn failures(&self) -> Seq<(Seq<char>, Seq<char>)> {
        failure_if(email_ok(self.email@), "email"@, "email"@) + failure_if(len_within(self.password@, 1, 128), "password"@, "length"@)
    }

    /// Runs every check; fails with all the failed ones.
    pub fn validate(&self) -> (r: Result<(), Vec<ValidationError>>)
        ensures
            r is Ok <==> self.valid(),
            r matches Err(v) ==> failure_views(v@) == self.failures(),
    {
        let mut errs: Vec<ValidationError> = Vec::new();
        note(&mut errs, is_valid_email(self.email.as_str()), "email", "email");
        note(&mut errs, length_ok(self.password.as_str(), 1, 128), "password", "length");
        outcome(errs)
    }
}

impl VerifyEmailInput {
    /// Whether the body passes its checks.
    pub open spec fn valid(&self) -> bool {
        len_within(self.token@, 16, 256)
    }

    /// The failed checks, in field order, as (field, kind).
    pub open spec fn failures(&self) -> Seq<(Seq<char>, Seq<char>)> {
        failure_if(len_within(self.token@, 16, 256), "token"@, "length"@)
    }

    /// Runs every check; fails with all the failed ones.
    pub fn validate(&self) -> (r: Result<(), Vec<ValidationError>>)
        ensures
            r is Ok <==> self.valid(),
            r matches Err(v) ==> failure_views(v@) == self.failures(),
    {
        let mut errs: Vec<ValidationError> = Vec::new();
        note(&mut errs, length_ok(self.token.as_str(), 16, 256), "token", "length");
        outcome(errs)
    }
}

impl ChangePasswordInput {
    /// Whether the body passes its checks.
    pub open spec fn valid(&self) -> bool {
        len_within(self.current_password@, 1, 128) && len_within(self.new_password@, 8, 128)
    }

    /// The failed checks, in field order, as (field, kind).
    pub open spec fn failures(&self) -> Seq<(Seq<char>, Seq<char>)> {
        failure_if(len_within(self.current_password@, 1, 128), "current_password"@, "length"@) + failure_if(len_within(self.new_password@, 8, 128), "new_password"@, "length"@)
    }

    /// Runs every check; fails with all the failed ones.
    pub fn validate(&self) -> (r: Result<(), Vec<ValidationError>>)
        ensures
            r is Ok <==> self.valid(),
            r matches Err(v) ==> failure_views(v@) == self.failures(),
    {
        let mut errs: Vec<ValidationError> = Vec::new();
        note(&mut errs, length_ok(self.current_password.as_str(), 1, 128), "current_password", "length");
        note(&mut errs, length_ok(self.new_password.as_str(), 8, 128), "new_password", "length");
        outcome(errs)
    }
}

impl ForgotPasswordInput {
    /// Whether the body passes its checks.
    pub open spec fn valid(&self) -> bool {
        email_ok(self.email@)
    }

    /// The failed checks, in field order, as (field, kind).
    pub open spec fn failures(&self) -> Seq<(Seq<char>, Seq<char>)> {
        failure_if(email_ok(self.email@), "email"@, "email"@)
    }

    /// Runs every check; fails with all the failed ones.
    pub fn validate(&self) -> (r: Result<(), Vec<ValidationError>>)
        ensures
            r is Ok <==> self.valid(),
            r matches Err(v) ==> failure_views(v@) == self.failures(),
    {
        let mut errs: Vec<ValidationError> = Vec::new();
        note(&mut errs, is_valid_email(self.email.as_str()), "email", "email");
        outcome(errs)
    }
}

impl ResetPasswordInput {
    /// Whether the body passes its checks.
    pub open spec fn valid(&self) -> bool {
        len_within(self.token@, 16, 256) && len_within(self.new_password@, 8, 128)
    }

    /// The failed checks, in field order, as (field, kind).
    pub open spec fn failures(&self) -> Seq<(Seq<char>, Seq<char>)> {
        failure_if(len_within(self.token@, 16, 256), "token"@, "length"@) + failure_if(len_within(self.new_password@, 8, 128), "new_password"@, "length"@)
    }

    /// Runs every check; fails with all the failed ones.
    pub fn validate(&self) -> (r: Result<(), Vec<ValidationError>>)
        ensures
            r is Ok <==> self.valid(),
            r matches Err(v) ==> failure_views(v@) == self.failures(),
    {
        let mut errs: Vec<ValidationError> = Vec::new();
        note(&mut errs, length_ok(self.token.as_str(), 16, 256), "token", "length");
        note(&mut errs, length_ok(self.new_password.as_str(), 8, 128), "new_password", "length");
        outcome(errs)
    }
}

// ---------------------------------------------------------------------------
// Session cookie
// ---------------------------------------------------------------------------

/// The value of the session cookie: `user_id:session_version`.
pub open spec fn session_value(uid: u128, version: i32) -> Seq<char> {
    uuid_text(uid) + seq![':'] + signed_decimal(version as int)
}

/// The session cookie to set: its name, value and attributes (HTTP-only,
/// `SameSite=Lax`, path `/`, not marked secure, 30 days).
pub struct SessionCookie {
    pub name: String,
    pub value: String,
    pub path: String,
    pub http_only: bool,
    pub same_site_lax: bool,
    pub secure: bool,
    pub max_age_days: i64,
}

/// The cookie that carries a session for `user_id` at `session_version`.
pub fn issue_cookie(user_id: u128, session_version: i32) -> (c: SessionCookie)
    ensures
        c.name@ == "simu_session"@,
        c.value@ == session_value(user_id, session_version),
        c.path@ == "/"@,
        c.http_only,
        c.same_site_lax,
        !c.secure,
        c.max_age_days == 30,
{
    let mut value = uuid_to_string(user_id);
    push_char(&mut value, ':');
    push_i64(&mut value, session_version as i64);
    assert(value@ == session_value(user_id, session_version));
    SessionCookie {
        name: session_cookie_name(),
        value,
        path: lit("/"),
        http_only: true,
        same_site_lax: true,
        secure: false,
        max_age_days: SESSION_TTL_DAYS,
    }
}

/// The index of the first `c` in `s`, if any.
pub open spec fn first_index(s: Seq<char>, c: char) -> Option<int> {
    if s.contains(c) {
        Some(choose|i: int| 0 <= i < s.len() && s[i] == c && forall|j: int| 0 <= j < i ==> s[j] != c)
    } else {
        None
    }
}

/// What `parse_session_cookie` reads from a cookie value: the part before the
/// first `:` as a UUID and the rest as a 32-bit integer.
pub open spec fn parse_session_spec(value: Seq<char>) -> Option<(u128, i32)> {
    match first_index(value, ':') {
        None => None,
        Some(k) => match (uuid_parse_spec(value.subrange(0, k)), parse_i32_spec(value.subrange(k + 1, value.len() as int))) {
            (Some(u), Some(v)) => Some((u, v)),
            _ => None,
        },
    }
}

/// Finds the first occurrence of `c`.
pub fn find_char(s: &Vec<char>, c: char) -> (r: Option<usize>)
    ensures
        match r {
            Some(k) => k < s@.len() && s@[k as int] == c && forall|j: int| 0 <= j < k ==> s@[j] != c,
            None => !s@.contains(c),
        },
{
    let n = s.len();
    for i in 0..n
        invariant
            n == s@.len(),
            forall|j: int| 0 <= j < i ==> s@[j] != c,
    {
        if s[i] == c {
            return Some(i);
        }
    }
    None
}

pub proof fn lemma_first_index(s: Seq<char>, c: char, k: int)
    requires
        0 <= k < s.len(),
        s[k] == c,
        forall|j: int| 0 <= j < k ==> s[j] != c,
    ensures
        first_index(s, c) == Some(k),
{
    assert(s.contains(c));
    let i = choose|i: int| 0 <= i < s.len() && s[i] == c && forall|j: int| 0 <= j < i ==> s[j] != c;
    if i < k {
        assert(s[i] != c);
    }
    if k < i {
        assert(s[k] != c);
    }
}

/// `Vec<char>` of `s[from..to]`.
pub fn slice_chars(s: &Vec<char>, from: usize, to: usize) -> (r: Vec<char>)
    requires
        from <= to <= s@.len(),
    ensures
        r@ == s@.subrange(from as int, to as int),
{
    let mut out: Vec<char> = Vec::new();
    let mut j = from;
    while j < to
        invariant
            from <= j <= to <= s@.len(),
            out@ == s@.subrange(from as int, j as int),
        decreases to - j,
    {
        out.push(s[j]);
        j = j + 1;
    }
    out
}

/// Reads the session cookie's value `user_id:session_version`; `None` when
/// there is no cookie or either part does not parse. A value issued by
/// `issue_cookie` reads back as the user and version it was issued for.
pub fn parse_session_cookie(cookie_value: Option<&str>) -> (r: Option<(u128, i32)>)
    ensures
        r == match cookie_value {
            None => None,
            Some(v) => parse_session_spec(v@),
        },
        forall|u: u128, ver: i32|
            cookie_value is Some && cookie_value->0@ == #[trigger] session_value(u, ver) ==> r == Some((u, ver)),
{
    let value = match cookie_value {
        None => {
            return None;
        },
        Some(v) => v,
    };
    let cs = chars_of(value);
    match find_char(&cs, ':') {
        None => {
            proof {
                assert forall|u: u128, ver: i32| value@ != #[trigger] session_value(u, ver) by {
                    if value@ == session_value(u, ver) {
                        assert(value@[36] == ':');
                    }
                }
            }
            return None;
        },
        Some(k) => {
            proof {
                lemma_first_index(cs@, ':', k as int);
            }
            let uid_part = string_of(&slice_chars(&cs, 0, k));
            let v_part = slice_chars(&cs, k + 1, cs.len());
            let uid = uuid_parse(uid_part.as_str());
            let v = parse_i32(&v_part);
            proof {
                assert forall|u: u128, ver: i32| value@ == #[trigger] session_value(u, ver) implies uid == Some(u)
                    && v == Some(ver) by {
                    let s = session_value(u, ver);
                    lemma_uuid_text_no_colon(u);
                    assert(s[36] == ':');
                    assert forall|j: int| 0 <= j < 36 implies s[j] != ':' by {
                        assert(s[j] == uuid_text(u)[j]);
                    }
                    lemma_first_index(s, ':', 36);
                    assert(k == 36);
                    assert(uid_part@ == uuid_text(u));
                    assert(v_part@ == signed_decimal(ver as int));
                    lemma_i32_roundtrip(ver);
                }
            }
            match (uid, v) {
                (Some(u), Some(v)) => Some((u, v)),
                _ => None,
            }
        },
    }
}

pub(crate) proof fn lemma_decimal_digits(n: nat)
    ensures
        all_digits(decimal(n)),
        digits_value(decimal(n)) == n,
        decimal(n).len() >= 1,
    decreases n,
{
    if n < 10 {
        let e = decimal(n);
        assert(e.drop_last() =~= Seq::<char>::empty());
        assert(crate::text::digit_value(crate::text::digit_char(n as int)) == n);
        assert(e.last() == crate::text::digit_char(n as int));
        assert(digits_value(e.drop_last()) == 0);
    } else {
        lemma_decimal_digits(n / 10);
        let d = decimal(n / 10);
        let e = d.push(crate::text::digit_char((n % 10) as int));
        assert(e.drop_last() == d);
        assert(crate::text::digit_value(crate::text::digit_char((n % 10) as int)) == n % 10);
        assert(digits_value(e) == digits_value(d) * 10 + (n % 10));
        assert((n / 10) * 10 + n % 10 == n) by (nonlinear_arith);
        assert forall|i: int| 0 <= i < e.len() implies is_digit(#[trigger] e[i]) by {
            if i < d.len() {
                assert(e[i] == d[i]);
            }
        }
    }
}

/// The numeral of a 32-bit value reads back as that value.
pub proof fn lemma_i32_roundtrip(v: i32)
    ensures
        parse_i32_spec(signed_decimal(v as int)) == Some(v),
{
    let s = signed_decimal(v as int);
    if v < 0 {
        lemma_decimal_digits((-(v as int)) as nat);
        let d = decimal((-(v as int)) as nat);
        assert(s.drop_first() == d);
        assert(s[0] == '-');
    } else {
        lemma_decimal_digits(v as nat);
        assert(is_digit(s[0]));
    }
}

/// `current_user_id`: the session is accepted when the cookie parses, the
/// user it names exists, and the cookie's version is the user's current one.
/// `user_session_version` is the stored version of the user the cookie names.
pub open spec fn session_accepts(parsed: Option<(u128, i32)>, user_session_version: Option<i32>) -> bool {
    match (parsed, user_session_version) {
        (Some((_, v)), Some(stored)) => v == stored,
        _ => false,
    }
}

/// Checks a parsed session cookie against the stored session version of the
/// user it names (`None` when that user does not exist).
pub fn current_user_id(parsed: Option<(u128, i32)>, user_session_version: Option<i32>) -> (r: Result<u128, AppError>)
    ensures
        r is Ok <==> session_accepts(parsed, user_session_version),
        r matches Ok(u) ==> parsed matches Some((pu, _)) && u == pu,
        r matches Err(e) ==> e is Unauthorized,
{
    match parsed {
        None => Err(AppError::Unauthorized),
        Some((uid, v)) => match user_session_version {
            None => Err(AppError::Unauthorized),
            Some(stored) => {
                if stored != v {
                    Err(AppError::Unauthorized)
                } else {
                    Ok(uid)
                }
            },
        },
    }
}

/// The user-id part of a session cookie value: what precedes its first `:`
/// (the whole value when it has none).
pub open spec fn cookie_uid_part(v: Seq<char>) -> Seq<char> {
    match first_index(v, ':') {
        Some(k) => v.subrange(0, k),
        None => v,
    }
}

/// Cookie-only parse: the user id of the session cookie, without the
/// version check (the version is not looked at). A value issued by
/// `issue_cookie` gives its user, whatever the version.
pub fn current_user_id_unchecked(cookie_value: Option<&str>) -> (r: Result<u128, AppError>)
    ensures
        match cookie_value {
            None => r matches Err(AppError::Unauthorized),
            Some(v) => match uuid_parse_spec(cookie_uid_part(v@)) {
                Some(u) => r == Ok::<u128, AppError>(u),
                None => r matches Err(AppError::Unauthorized),
            },
        },
        forall|u: u128, ver: i32|
            cookie_value is Some && cookie_value->0@ == #[trigger] session_value(u, ver) ==> r == Ok::<u128, AppError>(u),
{
    let value = match cookie_value {
        None => {
            return Err(AppError::Unauthorized);
        },
        Some(v) => v,
    };
    let cs = chars_of(value);
    let part = match find_char(&cs, ':') {
        None => string_of(&cs),
        Some(k) => {
            proof {
                lemma_first_index(cs@, ':', k as int);
            }
            string_of(&slice_chars(&cs, 0, k))
        },
    };
    assert(part@ == cookie_uid_part(value@));
    let uid = uuid_parse(part.as_str());
    proof {
        assert forall|u: u128, ver: i32| value@ == #[trigger] session_value(u, ver) implies uid == Some(u) by {
            let s = session_value(u, ver);
            lemma_uuid_text_no_colon(u);
            assert(s[36] == ':');
            assert forall|j: int| 0 <= j < 36 implies s[j] != ':' by {
                assert(s[j] == uuid_text(u)[j]);
            }
            lemma_first_index(s, ':', 36);
            assert(s.contains(':'));
            assert(part@ =~= uuid_text(u));
        }
    }
    match uid {
        Some(u) => Ok(u),
        None => Err(AppError::Unauthorized),
    }
}

/// The session version after a password change, a reset or "log out
/// everywhere": one more than before.
pub fn bumped_session_version(v: i32) -> (r: i32)
    requires
        v < i32::MAX,
    ensures
        r == v + 1,
{
    v + 1
}

/// Bumping the version ends every session issued before: a cookie carrying
/// the old version is refused against the bumped one, and a cookie issued
/// with the bumped version is accepted (cookies read back as issued, see
/// `parse_session_cookie`).
pub proof fn lemma_bump_invalidates_old_sessions(uid: u128, v: i32)
    requires
        v < i32::MAX,
    ensures
        !session_accepts(Some((uid, v)), Some((v + 1) as i32)),
        session_accepts(Some((uid, (v + 1) as i32)), Some((v + 1) as i32)),
{
}

// ---------------------------------------------------------------------------
// API tokens
// ---------------------------------------------------------------------------

/// The token of an `Authorization: Bearer <token>` header.
pub open spec fn bearer_spec(header: Seq<char>) -> Option<Seq<char>> {
    let p = seq!['B', 'e', 'a', 'r', 'e', 'r', ' '];
    if crate::text::has_prefix(header, p) {
        Some(header.subrange(7, header.len() as int))
    } else {
        None
    }
}

/// `header.strip_prefix("Bearer ")`.
pub fn bearer_token(header: &str) -> (r: Option<String>)
    ensures
        match r {
            Some(t) => bearer_spec(header@) == Some(t@),
            None => bearer_spec(header@) is None,
        },
{
    let cs = chars_of(header);
    let p = chars_of("Bearer ");
    proof {
        reveal_strlit("Bearer ");
    }
    assert(p@ == seq!['B', 'e', 'a', 'r', 'e', 'r', ' ']);
    if crate::text::starts_with(&cs, &p) {
        Some(string_of(&slice_chars(&cs, 7, cs.len())))
    } else {
        None
    }
}

/// What a bearer token decides: `None` when no stored token has its hash (the
/// cookie is tried next), `Err(Unauthorized)` when the stored token is
/// revoked, else the token owner's id. `found` is `(owner, revoked)`.
pub fn api_token_decision(found: Option<(u128, bool)>) -> (r: Option<Result<u128, AppError>>)
    ensures
        match found {
            None => r is None,
            Some((owner, revoked)) => if revoked {
                r matches Some(Err(AppError::Unauthorized))
            } else {
                r == Some(Ok::<u128, AppError>(owner))
            },
        },
{
    match found {
        None => None,
        Some((owner, revoked)) => {
            if revoked {
                Some(Err(AppError::Unauthorized))
            } else {
                Some(Ok(owner))
            }
        },
    }
}

// ---------------------------------------------------------------------------
// Login lockout
// ---------------------------------------------------------------------------

/// The account is locked at `now`.
pub open spec fn locked_at(locked_until: Option<i64>, now: i64) -> bool {
    match locked_until {
        Some(t) => t > now,
        None => false,
    }
}

/// Whether a login attempt at `now` is refused outright, before the password
/// is looked at.
pub fn is_locked(locked_until: Option<i64>, now: i64) -> (r: bool)
    ensures
        r == locked_at(locked_until, now),
{
    match locked_until {
        Some(t) => t > now,
        None => false,
    }
}

/// What the second factor needs after the password check.
pub enum MfaStage {
    /// The outcome is known without a code check.
    Decided(bool),
    /// The code must be checked (TOTP first, then recovery codes).
    CheckCode,
}

/// The second-factor stage: a wrong password fails; without TOTP the
/// password suffices; with TOTP an empty or missing code fails, any other
/// code is checked.
pub fn mfa_stage(password_ok: bool, totp_enabled: bool, totp_code: Option<&str>) -> (r: MfaStage)
    ensures
        !password_ok ==> r == MfaStage::Decided(false),
        password_ok && !totp_enabled ==> r == MfaStage::Decided(true),
        password_ok && totp_enabled ==> (match totp_code {
            None => r == MfaStage::Decided(false),
            Some(c) => if c@.len() == 0 {
                r == MfaStage::Decided(false)
            } else {
                r == MfaStage::CheckCode
            },
        }),
{
    if !password_ok {
        MfaStage::Decided(false)
    } else if !totp_enabled {
        MfaStage::Decided(true)
    } else {
        match totp_code {
            None => MfaStage::Decided(false),
            Some(c) => {
                if c.unicode_len() == 0 {
                    MfaStage::Decided(false)
                } else {
                    MfaStage::CheckCode
                }
            },
        }
    }
}

/// The outcome of a login attempt on an account that is not locked.
pub enum LoginDecision {
    /// Refused: store the new counter and lock, audit `action`, answer 401.
    Rejected { failed_login_count: i32, locked_until: Option<i64>, action: String },
    /// Accepted: when `reset` the counter and lock are cleared first.
    Accepted { reset: bool },
}

/// The counter after a failed attempt, and the lock: 15 minutes from `now`
/// once five attempts in a row have failed, else the lock as it was.
pub open spec fn after_failure(count: i32, locked_until: Option<i64>, now: i64) -> (int, Option<i64>) {
    let n = count + 1;
    if n >= 5 {
        (n, Some((now + 900_000_000) as i64))
    } else {
        (n, locked_until)
    }
}

/// `r` refuses the attempt with the counter and lock of `after_failure` and
/// the audit action for a wrong password or a wrong second factor.
pub open spec fn login_rejects(r: LoginDecision, count: i32, locked_until: Option<i64>, now: i64, password_ok: bool) -> bool {
    match r {
        LoginDecision::Rejected { failed_login_count: c, locked_until: l, action } => {
            &&& (c as int, l) == after_failure(count, locked_until, now)
            &&& action@ == (if !password_ok {
                "login_failed"@
            } else {
                "login_failed_mfa"@
            })
        },
        _ => false,
    }
}

/// `r` lets the user in, clearing the counter and lock first when `reset`.
pub open spec fn login_accepts(r: LoginDecision, reset: bool) -> bool {
    match r {
        LoginDecision::Accepted { reset: x } => x == reset,
        _ => false,
    }
}

/// Decides a login attempt once the password and second factor are known.
pub fn login_decision(
    failed_login_count: i32,
    locked_until: Option<i64>,
    now: i64,
    password_ok: bool,
    mfa_ok: bool,
) -> (r: LoginDecision)
    requires
        failed_login_count < i32::MAX,
        now <= i64::MAX - 900_000_000,
    ensures
        !password_ok || !mfa_ok ==> login_rejects(r, failed_login_count, locked_until, now, password_ok),
        password_ok && mfa_ok ==> login_accepts(r, failed_login_count != 0 || locked_until is Some),
{
    if !password_ok || !mfa_ok {
        let new_count = failed_login_count + 1;
        let lock = if new_count >= LOCK_THRESHOLD {
            Some(now + LOCK_MICROS)
        } else {
            locked_until
        };
        let action = if !password_ok {
            lit("login_failed")
        } else {
            lit("login_failed_mfa")
        };
        LoginDecision::Rejected { failed_login_count: new_count, locked_until: lock, action }
    } else {
        LoginDecision::Accepted { reset: failed_login_count != 0 || locked_until.is_some() }
    }
}

/// The counter and lock after an attempt at `now` with the given password and
/// second-factor results (a locked account keeps its state).
pub open spec fn login_step(state: (int, Option<i64>), now: i64, ok: bool) -> (int, Option<i64>) {
    if locked_at(state.1, now) {
        state
    } else if ok {
        (0, None)
    } else {
        let n = state.0 + 1;
        if n >= 5 {
            (n, Some((now + 900_000_000) as i64))
        } else {
            (n, state.1)
        }
    }
}

/// Five failed attempts in a row lock the account: starting from a clean
/// account, after five failures (at any non-decreasing times within range)
/// the account is locked for 15 minutes after the fifth.
pub proof fn lemma_five_failures_lock(t: Seq<i64>)
    requires
        t.len() == 5,
        forall|i: int, j: int| 0 <= i <= j < 5 ==> t[i] <= t[j],
        forall|i: int| 0 <= i < 5 ==> #[trigger] t[i] <= i64::MAX - 900_000_000,
    ensures
        ({
            let s1 = login_step((0, None), t[0], false);
            let s2 = login_step(s1, t[1], false);
            let s3 = login_step(s2, t[2], false);
            let s4 = login_step(s3, t[3], false);
            let s5 = login_step(s4, t[4], false);
            &&& s5 == (5int, Some((t[4] + 900_000_000) as i64))
            &&& locked_at(s5.1, t[4])
        }),
{
}

/// A successful attempt on an unlocked account clears the counter and lock.
pub proof fn lemma_success_resets(state: (int, Option<i64>), now: i64)
    requires
        !locked_at(state.1, now),
    ensures
        login_step(state, now, true) == (0int, None::<i64>),
{
}

/// While an account is locked, no attempt (right password or not) changes it
/// or gets in.
pub proof fn lemma_locked_refuses(state: (int, Option<i64>), now: i64, ok: bool)
    requires
        locked_at(state.1, now),
    ensures
        login_step(state, now, ok) == state,
{
}

/// `login_decision` follows `login_step` on an unlocked account.
pub proof fn lemma_decision_is_step(count: i32, locked_until: Option<i64>, now: i64, ok: bool)
    requires
        !locked_at(locked_until, now),
        count < i32::MAX,
        now <= i64::MAX - 900_000_000,
    ensures
        !ok ==> login_step((count as int, locked_until), now, ok) == after_failure(count, locked_until, now),
        ok ==> login_step((count as int, locked_until), now, ok) == (0int, None::<i64>),
{
}

// ---------------------------------------------------------------------------
// One-time tokens
// ---------------------------------------------------------------------------

/// Checks a stored one-time token (e-mail verification or password reset)
/// at `now`: a used token and then an expired one are refused.
pub fn check_one_time_token(used_at: Option<i64>, expires_at: i64, now: i64) -> (r: Result<(), AppError>)
    ensures
        used_at is Some ==> bad_request(r, "token already used"@),
        used_at is None && expires_at < now ==> bad_request(r, "token expired"@),
        used_at is None && expires_at >= now ==> r is Ok,
{
    if used_at.is_some() {
        return Err(AppError::BadRequest(lit("token already used")));
    }
    if expires_at < now {
        return Err(AppError::BadRequest(lit("token expired")));
    }
    Ok(())
}

/// The answer to a one-time token row (`used_at`, `expires_at`) looked up
/// at `now`: the refusal's message, or success.
pub open spec fn token_answer(row: Option<(Option<i64>, i64)>, now: i64) -> Result<(), Seq<char>> {
    match row {
        None => Err("invalid token"@),
        Some((used_at, expires_at)) => if used_at is Some {
            Err("token already used"@)
        } else if expires_at < now {
            Err("token expired"@)
        } else {
            Ok(())
        },
    }
}

/// A one-time token looked up by its hash at `now`: an unknown token, then a
/// used one, then an expired one are refused (400).
pub fn check_token_row(row: Option<(Option<i64>, i64)>, now: i64) -> (r: Result<(), AppError>)
    ensures
        token_answer(row, now) is Ok ==> r is Ok,
        token_answer(row, now) matches Err(m) ==> bad_request(r, m),
        row is None ==> bad_request(r, "invalid token"@),
        row matches Some((used_at, expires_at)) ==> {
            &&& used_at is Some ==> bad_request(r, "token already used"@)
            &&& used_at is None && expires_at < now ==> bad_request(r, "token expired"@)
            &&& used_at is None && expires_at >= now ==> r is Ok
        },
{
    match row {
        None => Err(AppError::BadRequest(lit("invalid token"))),
        Some((used_at, expires_at)) => check_one_time_token(used_at, expires_at, now),
    }
}

/// Redeems a one-time token row at `now` (a password reset or an e-mail
/// check): refused as `check_token_row` answers; on success the row as it is
/// stored afterwards, marked used at `now`.
pub fn redeem_token_row(row: Option<(Option<i64>, i64)>, now: i64) -> (r: Result<(Option<i64>, i64), AppError>)
    ensures
        token_answer(row, now) is Ok ==> r == Ok::<(Option<i64>, i64), AppError>((Some(now), (row->0).1)),
        token_answer(row, now) matches Err(m) ==> bad_request(r, m),
{
    match check_token_row(row, now) {
        Ok(()) => match row {
            Some((_, expires_at)) => Ok((Some(now), expires_at)),
            None => Err(AppError::BadRequest(lit("invalid token"))),
        },
        Err(e) => Err(e),
    }
}

/// A one-time token works at most once: once redeemed, its stored row is
/// refused with `token already used` at any later time.
pub proof fn lemma_token_single_use(row: Option<(Option<i64>, i64)>, now: i64, later: i64)
    requires
        token_answer(row, now) is Ok,
    ensures
        token_answer(Some((Some(now), (row->0).1)), later) == Err::<(), Seq<char>>("token already used"@),
{
}

/// The status of `POST /auth/password/forgot`: 202 whether or not the
/// address is registered, so that the answer does not tell which addresses
/// have accounts.
pub fn forgot_password_status(registered: bool) -> (r: u16)
    ensures
        r == 202,
{
    202
}

/// Signing up with an address already registered is a conflict.
pub fn check_email_free(taken: bool) -> (r: Result<(), AppError>)
    ensures
        taken ==> crate::error::conflict(r, "email already registered"@),
        !taken ==> r is Ok,
{
    if taken {
        return Err(AppError::Conflict(lit("email already registered")));
    }
    Ok(())
}

/// A new account from signup: a plain user with an unverified address, no
/// second factor, session version 0 and a clean lockout state.
pub fn signup_account(id: u128, email: String) -> (r: UserRecord)
    ensures
        r.id == id,
        r.email == email,
        r.role@ == "user"@,
        r.email_verified_at is None,
        r.session_version == 0,
        r.totp_secret is None,
        !r.totp_enabled,
        r.failed_login_count == 0,
        r.locked_until is None,
{
    UserRecord {
        id,
        email,
        role: lit("user"),
        email_verified_at: None,
        session_version: 0,
        totp_secret: None,
        totp_enabled: false,
        failed_login_count: 0,
        locked_until: None,
    }
}

/// The account once its address is confirmed at `now`.
pub fn email_verified(u: UserRecord, now: i64) -> (r: UserRecord)
    ensures
        r == (UserRecord { email_verified_at: Some(now), ..u }),
{
    UserRecord { email_verified_at: Some(now), ..u }
}

/// How long an e-mail verification link is valid (48 hours), in microseconds.
pub const VERIFY_TTL_MICROS: i64 = 172_800_000_000;

/// How long a password reset link is valid (60 minutes), in microseconds.
pub const RESET_TTL_MICROS: i64 = 3_600_000_000;

/// `base.trim_end_matches('/')`.
pub open spec fn trim_trailing_slashes(s: Seq<char>) -> Seq<char>
    decreases s.len(),
{
    if s.len() > 0 && s.last() == '/' {
        trim_trailing_slashes(s.drop_last())
    } else {
        s
    }
}

/// Removes every trailing `/`.
pub fn trim_end_slashes(s: &Vec<char>) -> (r: Vec<char>)
    ensures
        r@ == trim_trailing_slashes(s@),
{
    let mut k = s.len();
    assert(s@.subrange(0, k as int) == s@);
    while k > 0 && s[k - 1] == '/'
        invariant
            k <= s@.len(),
            trim_trailing_slashes(s@.subrange(0, k as int)) == trim_trailing_slashes(s@),
        decreases k,
    {
        assert(s@.subrange(0, k as int).drop_last() == s@.subrange(0, k - 1));
        k = k - 1;
    }
    slice_chars(s, 0, k)
}

/// A link mailed to a user: `{base without trailing /}{path}{token}`, e.g.
/// `/verify-email?token=` or `/reset?token=`.
pub fn link_with_token(base: &str, path: &str, token: &str) -> (r: String)
    ensures
        r@ == trim_trailing_slashes(base@) + path@ + token@,
{
    let b = trim_end_slashes(&chars_of(base));
    let mut out = string_of(&b);
    out.append(path);
    out.append(token);
    out
}

// ---------------------------------------------------------------------------
// Password hashes
// ---------------------------------------------------------------------------

/// What `Argon2::default().verify_password(password, &PasswordHash::new(phc)?)`
/// answers: `None` when `phc` is not a PHC string, else whether `password`
/// matches it.
pub uninterp spec fn argon2_verifies(password: Seq<u8>, phc: Seq<char>) -> Option<bool>;

/// `Argon2::default().hash_password(password, &SaltString::generate(&mut OsRng))`
/// as a PHC string (Argon2id, default cost, a fresh random salt); `None` when
/// the hasher refuses, which it does only for a password over `MAX_PWD_LEN`
/// (2^32 - 1) bytes. A hash it gives verifies with the same password.
#[verifier::external_body]
fn argon2_hash(password: &[u8]) -> (r: Option<String>)
    ensures
        password@.len() <= 0xFFFF_FFFF ==> r is Some,
        r matches Some(h) ==> argon2_verifies(password@, h@) == Some(true),
{
    let salt = SaltString::generate(&mut OsRng);
    match Argon2::default().hash_password(password, &salt) {
        Ok(h) => Some(h.to_string()),
        Err(_) => None,
    }
}

/// `PasswordHash::new(phc)` and then `Argon2::default().verify_password`:
/// `None` when `phc` does not parse, else whether the password matches.
#[verifier::external_body]
fn argon2_verify(password: &[u8], phc: &str) -> (r: Option<bool>)
    ensures
        r == argon2_verifies(password@, phc@),
{
    match PasswordHash::new(phc) {
        Ok(h) => Some(Argon2::default().verify_password(password, &h).is_ok()),
        Err(_) => None,
    }
}

/// `phc` is a stored hash made of `password`: argon2 verifies the password
/// against it.
pub open spec fn hashes_password(password: Seq<char>, phc: Seq<char>) -> bool {
    argon2_verifies(utf8(password), phc) == Some(true)
}

/// What checking `password` against the stored `phc` answers: `None` when
/// `phc` is not a PHC string, else whether the password matches.
pub open spec fn password_check(password: Seq<char>, phc: Seq<char>) -> Option<bool> {
    argon2_verifies(utf8(password), phc)
}

/// Hashes a password for storage; a refusal of the hasher (a password over
/// 2^32 - 1 bytes) is a server error.
pub fn hash_password(password: &str) -> (r: Result<String, AppError>)
    ensures
        utf8(password@).len() <= 0xFFFF_FFFF ==> r is Ok,
        r matches Ok(h) ==> hashes_password(password@, h@),
        r is Err ==> is_other(r),
{
    match argon2_hash(password.as_bytes()) {
        Some(h) => Ok(h),
        None => Err(AppError::Other(lit("hash"))),
    }
}

/// Whether `password` matches the stored hash `phc`; a stored value that is
/// not a PHC string is a server error.
pub fn verify_password(password: &str, phc: &str) -> (r: Result<bool, AppError>)
    ensures
        match password_check(password@, phc@) {
            None => is_other(r),
            Some(b) => r == Ok::<bool, AppError>(b),
        },
{
    match argon2_verify(password.as_bytes(), phc) {
        Some(b) => Ok(b),
        None => Err(AppError::Other(lit("parse phc"))),
    }
}

/// A password checks against the hash made of it: whatever `hash_password`
/// stored for `password`, `verify_password(password, ..)` answers `Ok(true)`.
pub proof fn lemma_hashed_password_verifies(password: Seq<char>, phc: Seq<char>)
    requires
        hashes_password(password, phc),
    ensures
        password_check(password, phc) == Some(true),
{
}

/// Failed logins: the counter goes up by one; the fifth failure in a row (or
/// any later one) locks the account for 15 minutes from now; earlier ones
/// keep the lock as it was. The audit action names a wrong password or a
/// wrong second factor.
pub proof fn lemma_failed_login_counts(count: i32, locked_until: Option<i64>, now: i64)
    requires
        count < i32::MAX,
        now <= i64::MAX - 900_000_000,
    ensures
        after_failure(count, locked_until, now).0 == count + 1,
        count + 1 < 5 ==> after_failure(count, locked_until, now).1 == locked_until,
        count + 1 >= 5 ==> after_failure(count, locked_until, now).1 == Some((now + 15 * minute()) as i64),
        (count + 1 >= 5) ==> locked_at(after_failure(count, locked_until, now).1, now),
{
}

/// A lock holds strictly before its end and not from its end on; no lock
/// never holds.
pub proof fn lemma_lock_window(t: i64, now: i64)
    ensures
        now < t ==> locked_at(Some(t), now),
        now >= t ==> !locked_at(Some(t), now),
        !locked_at(None, now),
{
}

/// `Bearer <token>` gives the token after the space; a header that does not
/// start with `Bearer ` gives none.
pub proof fn lemma_bearer_rule(t: Seq<char>, header: Seq<char>)
    ensures
        bearer_spec(seq!['B', 'e', 'a', 'r', 'e', 'r', ' '] + t) == Some(t),
        (header.len() < 7 || header.subrange(0, 7) != seq!['B', 'e', 'a', 'r', 'e', 'r', ' ']) ==> bearer_spec(header)
            is None,
{
    let p = seq!['B', 'e', 'a', 'r', 'e', 'r', ' '];
    assert((p + t).subrange(0, 7) =~= p);
    assert((p + t).subrange(7, (p + t).len() as int) =~= t);
}

/// Trimming slashes leaves no `/` at the end and removes only slashes: the
/// result followed by some slashes is the text.
pub proof fn lemma_trim_trailing_slashes(s: Seq<char>)
    ensures
        trim_trailing_slashes(s).len() == 0 || trim_trailing_slashes(s).last() != '/',
        trim_trailing_slashes(s).len() <= s.len(),
        trim_trailing_slashes(s) == s.subrange(0, trim_trailing_slashes(s).len() as int),
        forall|i: int| trim_trailing_slashes(s).len() <= i < s.len() ==> s[i] == '/',
    decreases s.len(),
{
    if s.len() > 0 && s.last() == '/' {
        lemma_trim_trailing_slashes(s.drop_last());
        let t = trim_trailing_slashes(s.drop_last());
        assert(s.drop_last().subrange(0, t.len() as int) =~= s.subrange(0, t.len() as int));
        assert forall|i: int| t.len() <= i < s.len() implies s[i] == '/' by {
            if i < s.len() - 1 {
                assert(s.drop_last()[i] == s[i]);
            }
        }
    } else {
        assert(s.subrange(0, s.len() as int) =~= s);
    }
}

/// One-time tokens: an unknown token is invalid, a used one is refused, an
/// unused one past its expiry is expired, and an unused one not yet expired
/// is accepted.
pub proof fn lemma_token_checks(used_at: Option<i64>, expires_at: i64, now: i64)
    ensures
        token_answer(None, now) == Err::<(), Seq<char>>("invalid token"@),
        used_at is Some ==> token_answer(Some((used_at, expires_at)), now) == Err::<(), Seq<char>>("token already used"@),
        used_at is None && expires_at < now ==> token_answer(Some((used_at, expires_at)), now) == Err::<(), Seq<char>>(
            "token expired"@,
        ),
        used_at is None && expires_at >= now ==> token_answer(Some((used_at, expires_at)), now) is Ok,
{
}

} // verus!
