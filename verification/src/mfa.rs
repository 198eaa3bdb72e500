//! Time-based one-time passwords (totp-rs): the secret is stored as unpadded
//! RFC 4648 base32, codes have six digits, a 30-second step and one step of
//! skew, and the issuer is `Simu`.
use vstd::prelude::*;

use totp_rs::{Algorithm, Secret, TOTP};

use crate::auth::UserRecord;
use crate::crypto::utf8;
use crate::error::{bad_request, conflict, is_other, lit, AppError};
use crate::text::decimal;

verus! {

/// What `Secret::Encoded(s).to_bytes()` gives: unpadded RFC 4648 base32
/// decoding of `s`, `None` where `s` is not such text.
pub uninterp spec fn base32_decoded(s: Seq<char>) -> Option<Seq<u8>>;

/// What `Secret::Raw(b).to_encoded()` holds: `b` in unpadded RFC 4648 base32
/// (also what `TOTP::get_secret_base32` gives).
pub uninterp spec fn base32_encoded(b: Seq<u8>) -> Seq<char>;

/// Digits of a code.
pub const TOTP_DIGITS: usize = 6;

/// Steps of clock skew accepted either side.
pub const TOTP_SKEW: u8 = 1;

/// Seconds per step.
pub const TOTP_STEP: u64 = 30;

/// The issuer shown by authenticator apps.
pub open spec fn issuer() -> Seq<char> {
    "Simu"@
}

/// The HMAC of a TOTP (totp-rs's `Algorithm` without its Steam variant).
#[derive(PartialEq, Eq, Structural)]
pub enum TotpAlgorithm {
    Sha1,
    Sha256,
    Sha512,
}

/// The plain parameters a TOTP is built from (the fields of totp-rs's `TOTP`).
pub struct TotpParams {
    pub algorithm: TotpAlgorithm,
    pub digits: usize,
    pub skew: u8,
    pub step: u64,
    pub secret: Vec<u8>,
    pub issuer: Option<String>,
    pub account_name: String,
}

/// What `TOTP::new` accepts: 6 to 8 digits, a secret of at least 16 bytes,
/// and no `:` in the issuer or the account name.
pub open spec fn params_accepted(p: TotpParams) -> bool {
    &&& 6 <= p.digits <= 8
    &&& p.secret@.len() >= 16
    &&& p.issuer matches Some(i) ==> !i@.contains(':')
    &&& !p.account_name@.contains(':')
}

/// Whether `TOTP::check(code, t)` accepts `code` at the Unix time `t` (in
/// seconds): the code of one of the steps from `t / step - skew` to
/// `t / step + skew`, as RFC 6238 computes it with these parameters.
pub uninterp spec fn totp_accepts(
    algorithm: TotpAlgorithm,
    digits: usize,
    skew: u8,
    step: u64,
    secret: Seq<u8>,
    code: Seq<char>,
    t: u64,
) -> bool;

/// The times at which `TOTP::check` computes without a division by zero, an
/// underflow of `t / step - skew` or an overflow of the last step's start.
pub open spec fn check_time_ok(skew: u8, step: u64, t: u64) -> bool {
    &&& step > 0
    &&& skew <= t / step
    &&& (t / step + skew) * step <= u64::MAX
}

/// Whether `TOTP::check` computes at `t` with this skew and step.
pub fn check_time_ok_at(skew: u8, step: u64, t: u64) -> (r: bool)
    ensures
        r == check_time_ok(skew, step, t),
{
    if step == 0 {
        return false;
    }
    let q = t / step;
    if q < skew as u64 {
        return false;
    }
    let m = u64::MAX / step;
    let ghost a: int = q + skew;
    assert(a * step <= u64::MAX <==> a <= m) by (nonlinear_arith)
        requires
            step > 0,
            m == u64::MAX / step,
            a >= 0,
    ;
    q <= m && (skew as u64) <= m - q
}

/// Whether a byte is left as it is by `urlencoding::encode`: an ASCII letter
/// or digit, `-`, `.`, `_` or `~`.
pub open spec fn url_unreserved(b: u8) -> bool {
    (48 <= b <= 57) || (65 <= b <= 90) || (97 <= b <= 122) || b == 45 || b == 46 || b == 95 || b == 126
}

/// An upper-case hexadecimal digit.
pub open spec fn hex_upper(d: int) -> char {
    if d < 10 {
        (48 + d) as char
    } else {
        (55 + d) as char
    }
}

/// `urlencoding::encode` of one byte: kept, or `%` and two upper-case hex
/// digits.
pub open spec fn url_byte(b: u8) -> Seq<char> {
    if url_unreserved(b) {
        seq![b as char]
    } else {
        seq!['%', hex_upper((b / 16) as int), hex_upper((b % 16) as int)]
    }
}

/// `urlencoding::encode_binary`: each byte in turn.
pub open spec fn url_encode_bytes(b: Seq<u8>) -> Seq<char>
    decreases b.len(),
{
    if b.len() == 0 {
        Seq::empty()
    } else {
        url_encode_bytes(b.drop_last()) + url_byte(b.last())
    }
}

/// `urlencoding::encode`: the percent-encoding of the UTF-8 bytes of `s`.
pub open spec fn url_encoded(s: Seq<char>) -> Seq<char> {
    url_encode_bytes(utf8(s))
}

/// The name totp-rs gives an algorithm in a URL.
pub open spec fn algorithm_name(a: TotpAlgorithm) -> Seq<char> {
    match a {
        TotpAlgorithm::Sha1 => "SHA1"@,
        TotpAlgorithm::Sha256 => "SHA256"@,
        TotpAlgorithm::Sha512 => "SHA512"@,
    }
}

/// `TOTP::get_url`: `otpauth://totp/{label}?secret=..` with `digits`,
/// `algorithm`, `issuer` and `period` added where they differ from the
/// defaults (6, SHA1, none, 30); the label is the issuer, `:` and the account
/// name, each URL-encoded.
pub open spec fn otpauth_url(
    algorithm: TotpAlgorithm,
    digits: usize,
    step: u64,
    secret: Seq<u8>,
    issuer: Option<Seq<char>>,
    account_name: Seq<char>,
) -> Seq<char> {
    let account = url_encoded(account_name);
    let q0 = "secret="@ + base32_encoded(secret);
    let q1 = if digits != 6 {
        q0 + "&digits="@ + decimal(digits as nat)
    } else {
        q0
    };
    let q2 = if algorithm != TotpAlgorithm::Sha1 {
        q1 + "&algorithm="@ + algorithm_name(algorithm)
    } else {
        q1
    };
    let label = match issuer {
        Some(i) => url_encoded(i) + ":"@ + account,
        None => account,
    };
    let q3 = match issuer {
        Some(i) => q2 + "&issuer="@ + url_encoded(i),
        None => q2,
    };
    let q4 = if step != 30 {
        q3 + "&period="@ + decimal(step as nat)
    } else {
        q3
    };
    "otpauth://totp/"@ + label + "?"@ + q4
}

/// `Secret::Encoded(s).to_bytes()`: the bytes of a base32 secret.
#[verifier::external_body]
fn decode_secret(s: &str) -> (r: Option<Vec<u8>>)
    ensures
        match r {
            Some(b) => base32_decoded(s@) == Some(b@),
            None => base32_decoded(s@) is None,
        },
{
    Secret::Encoded(s.to_string()).to_bytes().ok()
}

/// `Secret::Raw(b).to_encoded()`, as text: the base32 form of `b`, which
/// decodes back to `b`.
#[verifier::external_body]
fn encode_secret(b: &[u8]) -> (r: String)
    ensures
        r@ == base32_encoded(b@),
        base32_decoded(r@) == Some(b@),
{
    Secret::Raw(b.to_vec()).to_encoded().to_string()
}

/// `Secret::generate_secret()`: 20 bytes from the thread's random generator.
#[verifier::external_body]
fn generate_secret_bytes() -> (r: Vec<u8>)
    ensures
        r@.len() == 20,
{
    match Secret::generate_secret() {
        Secret::Raw(b) => b,
        Secret::Encoded(s) => s.into_bytes(),
    }
}

/// `TOTP::new` on the parameters: whether it accepts them.
#[verifier::external_body]
fn totp_new_accepts(p: &TotpParams) -> (r: bool)
    ensures
        r == params_accepted(*p),
{
    let algorithm = match p.algorithm {
        TotpAlgorithm::Sha1 => Algorithm::SHA1,
        TotpAlgorithm::Sha256 => Algorithm::SHA256,
        TotpAlgorithm::Sha512 => Algorithm::SHA512,
    };
    TOTP::new(algorithm, p.digits, p.skew, p.step, p.secret.clone(), p.issuer.clone(), p.account_name.clone()).is_ok()
}

/// `TOTP::new` and then `TOTP::check(code, t)`: whether `code` is accepted at
/// the Unix time `t`. `check` divides by the step and subtracts the skew from
/// `t / step`, so only times at which that computes are admitted.
#[verifier::external_body]
fn totp_check_at(p: &TotpParams, code: &str, t: u64) -> (r: bool)
    requires
        params_accepted(*p),
        check_time_ok(p.skew, p.step, t),
    ensures
        r == totp_accepts(p.algorithm, p.digits, p.skew, p.step, p.secret@, code@, t),
{
    let algorithm = match p.algorithm {
        TotpAlgorithm::Sha1 => Algorithm::SHA1,
        TotpAlgorithm::Sha256 => Algorithm::SHA256,
        TotpAlgorithm::Sha512 => Algorithm::SHA512,
    };
    match TOTP::new(algorithm, p.digits, p.skew, p.step, p.secret.clone(), p.issuer.clone(), p.account_name.clone()) {
        Ok(totp) => totp.check(code, t),
        Err(_) => false,
    }
}

/// `TOTP::new` and then `TOTP::get_url`: the provisioning URL.
#[verifier::external_body]
fn totp_url(p: &TotpParams) -> (r: String)
    requires
        params_accepted(*p),
    ensures
        r@ == otpauth_url(
            p.algorithm,
            p.digits,
            p.step,
            p.secret@,
            match p.issuer {
                Some(i) => Some(i@),
                None => None,
            },
            p.account_name@,
        ),
{
    let algorithm = match p.algorithm {
        TotpAlgorithm::Sha1 => Algorithm::SHA1,
        TotpAlgorithm::Sha256 => Algorithm::SHA256,
        TotpAlgorithm::Sha512 => Algorithm::SHA512,
    };
    match TOTP::new(algorithm, p.digits, p.skew, p.step, p.secret.clone(), p.issuer.clone(), p.account_name.clone()) {
        Ok(totp) => totp.get_url(),
        Err(_) => String::new(),
    }
}

/// `chrono::Utc::now().timestamp()`: the current Unix time in seconds, read
/// from the system clock, so nothing is promised of it.
#[verifier::external_body]
fn unix_now_secs() -> (r: i64) {
    chrono::Utc::now().timestamp()
}

/// Whether a stored secret and an account name give a working TOTP.
pub open spec fn totp_usable(secret_b32: Seq<char>, account: Seq<char>) -> bool {
    &&& base32_decoded(secret_b32) matches Some(b)
    &&& b.len() >= 16
    &&& !account.contains(':')
}

/// `r` succeeded with the text `t`.
pub open spec fn ok_text(r: Result<String, AppError>, t: Seq<char>) -> bool {
    r matches Ok(s) && s@ == t
}

/// The parameters of the codes of a secret: HMAC-SHA-1, six digits, one step
/// of skew, 30-second steps, issuer `Simu`, the account name given.
pub open spec fn simu_params(p: TotpParams, secret: Seq<u8>, account: Seq<char>) -> bool {
    &&& p.algorithm == TotpAlgorithm::Sha1
    &&& p.digits == TOTP_DIGITS
    &&& p.skew == TOTP_SKEW
    &&& p.step == TOTP_STEP
    &&& p.secret@ == secret
    &&& p.issuer matches Some(i) && i@ == issuer()
    &&& p.account_name@ == account
}

/// Whether a six-digit, one-skew, 30-second SHA-1 code of `secret` at `t`
/// is `code`.
pub open spec fn simu_code_ok(secret: Seq<u8>, code: Seq<char>, t: u64) -> bool {
    totp_accepts(TotpAlgorithm::Sha1, TOTP_DIGITS, TOTP_SKEW, TOTP_STEP, secret, code, t)
}

/// The TOTP parameters of a stored base32 secret for `account` (the user's
/// e-mail), as `TOTP::new` accepts them.
pub fn build_totp(secret_b32: &str, account: &str) -> (r: Result<TotpParams, AppError>)
    ensures
        r is Ok <==> totp_usable(secret_b32@, account@),
        r matches Ok(p) ==> simu_params(p, base32_decoded(secret_b32@)->0, account@) && params_accepted(p),
        r is Err ==> is_other(r),
{
    let secret = match decode_secret(secret_b32) {
        Some(b) => b,
        None => return Err(AppError::Other(lit("totp secret"))),
    };
    proof {
        reveal_strlit("Simu");
    }
    let iss = lit("Simu");
    assert(!iss@.contains(':')) by {
        assert(iss@ =~= seq!['S', 'i', 'm', 'u']);
    }
    let p = TotpParams {
        algorithm: TotpAlgorithm::Sha1,
        digits: TOTP_DIGITS,
        skew: TOTP_SKEW,
        step: TOTP_STEP,
        secret,
        issuer: Some(iss),
        account_name: lit(account),
    };
    if totp_new_accepts(&p) {
        Ok(p)
    } else {
        Err(AppError::Other(lit("totp build")))
    }
}

/// What the login code check answers for `user` at the Unix time `t`:
/// `Some(false)` without a stored secret, `None` (a server error) for an
/// unusable secret or a time at which totp-rs cannot compute, else whether
/// `code` is the code of the step of `t` or of one step either side.
pub open spec fn code_check_answer(user: UserRecord, code: Seq<char>, t: u64) -> Option<bool> {
    match user.totp_secret {
        None => Some(false),
        Some(s) => if !totp_usable(s@, user.email@) || !check_time_ok(TOTP_SKEW, TOTP_STEP, t) {
            None
        } else {
            Some(simu_code_ok(base32_decoded(s@)->0, code, t))
        },
    }
}

/// The code check of login at the Unix time `t` (see `code_check_answer`;
/// `None` there is a server error).
pub fn verify_at(user: &UserRecord, code: &str, t: u64) -> (r: Result<bool, AppError>)
    ensures
        match code_check_answer(*user, code@, t) {
            Some(b) => r == Ok::<bool, AppError>(b),
            None => is_other(r),
        },
{
    let secret = match &user.totp_secret {
        None => return Ok(false),
        Some(s) => s,
    };
    let p = build_totp(secret.as_str(), user.email.as_str())?;
    if !check_time_ok_at(TOTP_SKEW, TOTP_STEP, t) {
        return Err(AppError::Other(lit("totp time")));
    }
    Ok(totp_check_at(&p, code, t))
}

/// The code check of login, at the time of the system clock: as `verify_at`
/// at some time at which totp-rs computes, else a server error.
pub fn verify_for(user: &UserRecord, code: &str) -> (r: Result<bool, AppError>)
    ensures
        user.totp_secret is None ==> r == Ok::<bool, AppError>(false),
        (user.totp_secret matches Some(s) && !totp_usable(s@, user.email@)) ==> is_other(r),
        (user.totp_secret matches Some(s) && totp_usable(s@, user.email@)) ==> (r matches Ok(b) ==> exists|t: u64|
            check_time_ok(TOTP_SKEW, TOTP_STEP, t) && b == #[trigger] simu_code_ok(base32_decoded(user.totp_secret->0@)->0, code@, t)),
        r is Err ==> is_other(r),
{
    if user.totp_secret.is_none() {
        return Ok(false);
    }
    let now = unix_now_secs();
    if now < 0 {
        return match build_totp_checked(user) {
            Ok(()) => Err(AppError::Other(lit("totp time"))),
            Err(e) => Err(e),
        };
    }
    verify_at(user, code, now as u64)
}

/// Whether the user's stored secret is usable (a server error if not).
fn build_totp_checked(user: &UserRecord) -> (r: Result<(), AppError>)
    requires
        user.totp_secret is Some,
    ensures
        r is Ok <==> totp_usable(user.totp_secret->0@, user.email@),
        r is Err ==> is_other(r),
{
    match &user.totp_secret {
        Some(s) => {
            build_totp(s.as_str(), user.email.as_str())?;
            Ok(())
        },
        None => Ok(()),
    }
}

/// The answer to `POST /mfa/enroll`.
pub struct EnrollDto {
    pub secret: String,
    pub otpauth_url: String,
}

/// `POST /mfa/activate` and `POST /mfa/disable`.
pub struct MfaCodeInput {
    pub code: String,
}

/// A new secret for `email`: refused with 409 when MFA is already on; a
/// server error when the address holds `:`; else 20 fresh random bytes in
/// base32 and their provisioning URL.
pub fn new_enrollment(totp_enabled: bool, email: &str) -> (r: Result<EnrollDto, AppError>)
    ensures
        totp_enabled ==> conflict(r, "MFA already enabled"@),
        !totp_enabled ==> (r is Ok <==> !email@.contains(':')),
        r matches Ok(d) ==> (base32_decoded(d.secret@) matches Some(b) && b.len() == 20),
        r matches Ok(d) ==> totp_usable(d.secret@, email@),
        r matches Ok(d) ==> d.otpauth_url@ == otpauth_url(
            TotpAlgorithm::Sha1,
            TOTP_DIGITS,
            TOTP_STEP,
            base32_decoded(d.secret@)->0,
            Some(issuer()),
            email@,
        ),
        !totp_enabled && r is Err ==> is_other(r),
{
    if totp_enabled {
        return Err(AppError::Conflict(lit("MFA already enabled")));
    }
    let bytes = generate_secret_bytes();
    let secret = encode_secret(bytes.as_slice());
    let p = build_totp(secret.as_str(), email)?;
    let url = totp_url(&p);
    Ok(EnrollDto { secret, otpauth_url: url })
}

/// Checks `code` against the stored secret at the Unix time `t`: 400
/// `invalid code` when it does not match; a server error for an unusable
/// secret or a time at which totp-rs cannot compute.
pub fn check_code_at(secret_b32: &str, email: &str, code: &str, t: u64) -> (r: Result<(), AppError>)
    ensures
        !totp_usable(secret_b32@, email@) ==> is_other(r),
        totp_usable(secret_b32@, email@) ==> if check_time_ok(TOTP_SKEW, TOTP_STEP, t) {
            if simu_code_ok(base32_decoded(secret_b32@)->0, code@, t) {
                r is Ok
            } else {
                bad_request(r, "invalid code"@)
            }
        } else {
            is_other(r)
        },
{
    let p = build_totp(secret_b32, email)?;
    if !check_time_ok_at(TOTP_SKEW, TOTP_STEP, t) {
        return Err(AppError::Other(lit("totp time")));
    }
    if totp_check_at(&p, code, t) {
        Ok(())
    } else {
        Err(AppError::BadRequest(lit("invalid code")))
    }
}

/// Checks `code` against the stored secret at the time of the system clock:
/// as `check_code_at` at some time at which totp-rs computes, else a server
/// error.
pub fn check_code(secret_b32: &str, email: &str, code: &str) -> (r: Result<(), AppError>)
    ensures
        !totp_usable(secret_b32@, email@) ==> is_other(r),
        totp_usable(secret_b32@, email@) ==> (r is Ok ==> exists|t: u64|
            check_time_ok(TOTP_SKEW, TOTP_STEP, t) && #[trigger] simu_code_ok(base32_decoded(secret_b32@)->0, code@, t)),
        totp_usable(secret_b32@, email@) ==> (bad_request(r, "invalid code"@) ==> exists|t: u64|
            check_time_ok(TOTP_SKEW, TOTP_STEP, t) && !#[trigger] simu_code_ok(base32_decoded(secret_b32@)->0, code@, t)),
        r is Ok || is_other(r) || bad_request(r, "invalid code"@),
{
    let now = unix_now_secs();
    if now < 0 {
        build_totp(secret_b32, email)?;
        return Err(AppError::Other(lit("totp time")));
    }
    let r = check_code_at(secret_b32, email, code, now as u64);
    proof {
        reveal_strlit("invalid code");
    }
    r
}

/// `POST /mfa/activate` before the code check: 409 when already active, 400
/// when no secret was enrolled; else the secret to check against.
pub fn activation_secret(user: &UserRecord) -> (r: Result<String, AppError>)
    ensures
        user.totp_enabled ==> conflict(r, "MFA already active"@),
        !user.totp_enabled && user.totp_secret is None ==> bad_request(r, "call /mfa/enroll first"@),
        !user.totp_enabled && user.totp_secret is Some ==> ok_text(r, user.totp_secret->0@),
{
    if user.totp_enabled {
        return Err(AppError::Conflict(lit("MFA already active")));
    }
    match &user.totp_secret {
        None => Err(AppError::BadRequest(lit("call /mfa/enroll first"))),
        Some(s) => Ok(s.clone()),
    }
}

/// `POST /mfa/disable` before the code check: 400 when not active, a server
/// error when the secret is missing; else the secret to check against.
pub fn disabling_secret(user: &UserRecord) -> (r: Result<String, AppError>)
    ensures
        !user.totp_enabled ==> bad_request(r, "MFA not active"@),
        user.totp_enabled && user.totp_secret is None ==> is_other(r),
        user.totp_enabled && user.totp_secret is Some ==> ok_text(r, user.totp_secret->0@),
{
    if !user.totp_enabled {
        return Err(AppError::BadRequest(lit("MFA not active")));
    }
    match &user.totp_secret {
        None => Err(AppError::Other(lit("missing secret"))),
        Some(s) => Ok(s.clone()),
    }
}

/// The account after enrollment: the new secret stored, MFA still off.
pub open spec fn with_secret(user: UserRecord, secret: String) -> UserRecord {
    UserRecord { totp_secret: Some(secret), ..user }
}

/// The account after MFA is switched off: no secret is kept.
pub open spec fn without_mfa(user: UserRecord) -> UserRecord {
    UserRecord { totp_enabled: false, totp_secret: None, ..user }
}

/// Stores a new secret (`POST /mfa/enroll`).
pub fn enrolled(user: UserRecord, secret: String) -> (r: UserRecord)
    ensures
        r == with_secret(user, secret),
{
    UserRecord { totp_secret: Some(secret), ..user }
}

/// The account after a successful activation.
pub fn activated(user: UserRecord) -> (r: UserRecord)
    ensures
        r == (UserRecord { totp_enabled: true, ..user }),
{
    UserRecord { totp_enabled: true, ..user }
}

/// Switches MFA off (`POST /mfa/disable`).
pub fn deactivated(user: UserRecord) -> (r: UserRecord)
    ensures
        r == without_mfa(user),
{
    UserRecord { totp_enabled: false, totp_secret: None, ..user }
}

/// Once MFA is switched off, no code matches: the login check answers
/// `false` for every code at every time; and activating asks for a new
/// enrollment (the account is inactive and holds no secret, which
/// `activation_secret` answers with 400).
pub proof fn lemma_deactivated_has_no_code(user: UserRecord)
    ensures
        forall|code: Seq<char>, t: u64| #[trigger] code_check_answer(without_mfa(user), code, t) == Some(false),
        !without_mfa(user).totp_enabled && without_mfa(user).totp_secret is None,
{
}

/// A secret from enrollment, once stored, can be activated: the account is
/// not active yet (so `activation_secret` hands the secret out) and the
/// secret is usable for its address (so `check_code` builds its TOTP).
pub proof fn lemma_enrolled_secret_activates(user: UserRecord, d: EnrollDto)
    requires
        !user.totp_enabled,
        totp_usable(d.secret@, user.email@),
    ensures
        !with_secret(user, d.secret).totp_enabled,
        with_secret(user, d.secret).totp_secret == Some(d.secret),
        totp_usable(with_secret(user, d.secret).totp_secret->0@, with_secret(user, d.secret).email@),
{
}

/// The login code check: no stored secret answers `false`; an unusable
/// secret (not base32, under 16 bytes, or an address holding `:`) is an
/// error; otherwise, at any time from 30 s after the epoch on (and before
/// the end of `u64`), the answer is whether `code` is a 6-digit SHA-1 code of
/// the secret for the 30-second step of `t` or one step either side.
pub proof fn lemma_code_check_rule(user: UserRecord, code: Seq<char>, t: u64)
    ensures
        user.totp_secret is None ==> code_check_answer(user, code, t) == Some(false),
        (user.totp_secret matches Some(s) && (base32_decoded(s@) is None || base32_decoded(s@)->0.len() < 16
            || user.email@.contains(':'))) ==> code_check_answer(user, code, t) is None,
        (user.totp_secret matches Some(s) && base32_decoded(s@) matches Some(b) && b.len() >= 16 && !user.email@.contains(
            ':',
        ) && 30 <= t <= 1_000_000_000_000_000_000) ==> code_check_answer(user, code, t) == Some(
            totp_accepts(TotpAlgorithm::Sha1, 6, 1, 30, base32_decoded(user.totp_secret->0@)->0, code, t),
        ),
        t < 30 ==> !check_time_ok(TOTP_SKEW, TOTP_STEP, t),
{
    if 30 <= t <= 1_000_000_000_000_000_000 {
        assert(t / 30 >= 1 && (t / 30 + 1) * 30 <= u64::MAX) by (nonlinear_arith)
            requires
                30 <= t <= 1_000_000_000_000_000_000,
        ;
    }
    if t < 30 {
        assert(t / 30 == 0) by (nonlinear_arith)
            requires
                t < 30,
        ;
    }
}

} // verus!
