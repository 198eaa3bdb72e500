//! Public share links: how long they live, the password check, and when a
//! download through a link is refused.
use vstd::prelude::*;

use crate::auth::trim_trailing_slashes;
use crate::crypto::{ct_eq_bytes, sha256_hex, sha256_hex_spec, utf8};
use crate::error::{gone, lit, AppError};
use crate::validation::{email_ok, failure_if, failure_views, is_valid_email, note, outcome, ValidationError};

verus! {

/// `POST /files/{id}/shares`.
pub struct CreateShareInput {
    pub password: Option<String>,
    pub email_to: Option<String>,
    pub ttl_hours: Option<i64>,
}

impl CreateShareInput {
    /// Whether the body passes its checks.
    pub open spec fn valid(&self) -> bool {
        self.email_to matches Some(e) ==> email_ok(e@)
    }

    /// The failed checks, as (field, kind).
    pub open spec fn failures(&self) -> Seq<(Seq<char>, Seq<char>)> {
        failure_if(!(self.email_to matches Some(e) && !email_ok(e@)), "email_to"@, "email"@)
    }

    /// A recipient address, when given, must be an e-mail address.
    pub fn validate(&self) -> (r: Result<(), Vec<ValidationError>>)
        ensures
            r is Ok <==> self.valid(),
            r matches Err(v) ==> failure_views(v@) == self.failures(),
    {
        let mut errs: Vec<ValidationError> = Vec::new();
        let ok = match &self.email_to {
            Some(e) => is_valid_email(e.as_str()),
            None => true,
        };
        note(&mut errs, ok, "email_to", "email");
        outcome(errs)
    }
}

/// The query of `GET /shares/{token}`.
pub struct ShareDownloadQuery {
    pub inline: Option<bool>,
    pub password: Option<String>,
}

/// A share link as listed to the file's owner.
pub struct FileShareDto {
    pub download_count: i64,
    pub id: u128,
    pub file_id: u128,
    pub url: String,
    pub expires_at: Option<i64>,
    pub created_at: i64,
}

/// The lifetime of a new link in hours: 24 unless asked, kept within 1..=720.
pub open spec fn share_ttl_spec(ttl_hours: Option<i64>) -> i64 {
    let t = match ttl_hours {
        Some(t) => t,
        None => 24,
    };
    if t < 1 {
        1
    } else if t > 720 {
        720
    } else {
        t
    }
}

/// `ttl_hours.unwrap_or(24).clamp(1, 720)`.
pub fn share_ttl_hours(ttl_hours: Option<i64>) -> (r: i64)
    ensures
        r == share_ttl_spec(ttl_hours),
        1 <= r <= 720,
{
    let t = match ttl_hours {
        Some(t) => t,
        None => 24,
    };
    if t < 1 {
        1
    } else if t > 720 {
        720
    } else {
        t
    }
}

/// When a link created at `now` (microseconds) for `ttl_hours` expires.
pub fn share_expires_at(now: i64, ttl_hours: Option<i64>) -> (r: i64)
    requires
        now <= i64::MAX - 720 * 3_600_000_000,
    ensures
        r == now + share_ttl_spec(ttl_hours) * 3_600_000_000,
{
    let h = share_ttl_hours(ttl_hours);
    now + h * 3_600_000_000
}

/// The stored form of a share password: its SHA-256 hex.
pub fn share_password_hash(password: Option<&str>) -> (r: Option<String>)
    ensures
        match password {
            Some(p) => r matches Some(h) && h@ == sha256_hex_spec(p@) && h@.len() == 64,
            None => r is None,
        },
{
    match password {
        Some(p) => Some(sha256_hex(p)),
        None => None,
    }
}

/// The hash compared against a link's stored password hash: that of the
/// password given, or the empty text when none was given.
pub open spec fn provided_hash(provided: Option<Seq<char>>) -> Seq<char> {
    match provided {
        Some(p) => sha256_hex_spec(p),
        None => Seq::empty(),
    }
}

/// Why a download through a link is refused, in the order checked: a revoked
/// link (410), an expired one (410), a wrong or missing password (401).
pub open spec fn share_download_spec(
    revoked: bool,
    expires_at: Option<i64>,
    password_hash: Option<Seq<char>>,
    provided: Option<Seq<char>>,
    now: i64,
) -> Result<(), Seq<char>> {
    if revoked {
        Err("share revoked"@)
    } else if expires_at matches Some(e) && e < now {
        Err("share expired"@)
    } else if password_hash matches Some(h) && provided_hash(provided) != h {
        Err(Seq::empty())
    } else {
        Ok(())
    }
}

/// Whether `r` answers as `share_download_spec` says.
pub open spec fn share_answer(r: Result<(), AppError>, s: Result<(), Seq<char>>) -> bool {
    match s {
        Ok(()) => r is Ok,
        Err(m) => if m.len() == 0 {
            r matches Err(AppError::Unauthorized)
        } else {
            gone(r, m)
        },
    }
}

/// Decides a download through a share link at `now`: refused when revoked,
/// expired, or protected by a password whose hash the given password does not
/// match (compared in constant time).
pub fn check_share_download(
    revoked: bool,
    expires_at: Option<i64>,
    password_hash: Option<&str>,
    provided: Option<&str>,
    now: i64,
) -> (r: Result<(), AppError>)
    ensures
        share_answer(
            r,
            share_download_spec(
                revoked,
                expires_at,
                match password_hash {
                    Some(h) => Some(h@),
                    None => None,
                },
                match provided {
                    Some(p) => Some(p@),
                    None => None,
                },
                now,
            ),
        ),
{
    if revoked {
        proof {
            reveal_strlit("share revoked");
        }
        return Err(AppError::Gone(lit("share revoked")));
    }
    match expires_at {
        Some(e) => {
            if e < now {
                proof {
                    reveal_strlit("share expired");
                }
                return Err(AppError::Gone(lit("share expired")));
            }
        },
        None => {},
    }
    match password_hash {
        Some(expected) => {
            let given = match provided {
                Some(p) => sha256_hex(p),
                None => String::new(),
            };
            let same = ct_eq_bytes(given.as_str().as_bytes(), expected.as_bytes());
            proof {
                vstd::utf8::encode_utf8_decode_utf8(given@);
                vstd::utf8::encode_utf8_decode_utf8(expected@);
            }
            if !same {
                return Err(AppError::Unauthorized);
            }
            Ok(())
        },
        None => Ok(()),
    }
}

/// A link protected by password `p` lets `p` through.
pub proof fn lemma_share_password_accepted(p: Seq<char>, revoked: bool, expires_at: Option<i64>, now: i64)
    requires
        !revoked,
        !(expires_at matches Some(e) && e < now),
    ensures
        share_download_spec(revoked, expires_at, Some(sha256_hex_spec(p)), Some(p), now) is Ok,
{
}

/// A link with a (non-empty) stored password hash refuses a request that
/// gives no password.
pub proof fn lemma_share_password_required(h: Seq<char>, revoked: bool, expires_at: Option<i64>, now: i64)
    requires
        h.len() > 0,
    ensures
        share_download_spec(revoked, expires_at, Some(h), None, now) is Err,
{
}

/// `{base}/api/shares/{token}`: the public link of a share.
pub fn share_url(base: &str, token: &str) -> (r: String)
    ensures
        r@ == trim_trailing_slashes(base@) + "/api/shares/"@ + token@,
{
    crate::auth::link_with_token(base, "/api/shares/", token)
}

/// The download counter after one more download through the link.
pub fn next_download_count(count: i64) -> (r: i64)
    requires
        count < i64::MAX,
    ensures
        r == count + 1,
{
    count + 1
}

/// A stored share link: the SHA-256 hex of its token and of its password
/// are kept, never the token or the password.
pub struct ShareRecord {
    pub id: u128,
    pub file_id: u128,
    pub token_hash: String,
    pub expires_at: Option<i64>,
    pub created_at: i64,
    pub revoked_at: Option<i64>,
    pub download_count: i64,
    pub password_hash: Option<String>,
}

/// A share link as the data export writes it: neither its token hash nor
/// its password hash leaves.
pub struct ExportedShare {
    pub id: u128,
    pub file_id: u128,
    pub expires_at: Option<i64>,
    pub created_at: i64,
    pub revoked_at: Option<i64>,
    pub download_count: i64,
}

/// The export's view of a share link.
pub fn exported_share(s: ShareRecord) -> (r: ExportedShare)
    ensures
        r == (ExportedShare {
            id: s.id,
            file_id: s.file_id,
            expires_at: s.expires_at,
            created_at: s.created_at,
            revoked_at: s.revoked_at,
            download_count: s.download_count,
        }),
{
    ExportedShare {
        id: s.id,
        file_id: s.file_id,
        expires_at: s.expires_at,
        created_at: s.created_at,
        revoked_at: s.revoked_at,
        download_count: s.download_count,
    }
}

/// A new link to a file, made at `now` from the raw token and optional
/// password: live, never downloaded, expiring after its lifetime.
pub fn new_share(
    id: u128,
    file_id: u128,
    raw_token: &str,
    password: Option<&str>,
    ttl_hours: Option<i64>,
    now: i64,
) -> (r: ShareRecord)
    requires
        now <= i64::MAX - 720 * 3_600_000_000,
    ensures
        r.id == id,
        r.file_id == file_id,
        r.token_hash@ == sha256_hex_spec(raw_token@),
        r.expires_at == Some((now + share_ttl_spec(ttl_hours) * 3_600_000_000) as i64),
        r.created_at == now,
        r.revoked_at is None,
        r.download_count == 0,
        match password {
            Some(p) => r.password_hash matches Some(h) && h@ == sha256_hex_spec(p@),
            None => r.password_hash is None,
        },
{
    ShareRecord {
        id,
        file_id,
        token_hash: sha256_hex(raw_token),
        expires_at: Some(share_expires_at(now, ttl_hours)),
        created_at: now,
        revoked_at: None,
        download_count: 0,
        password_hash: share_password_hash(password),
    }
}

/// The answer to creating a link: the share with its public URL.
pub fn share_dto(s: &ShareRecord, url: String) -> (r: FileShareDto)
    ensures
        r == (FileShareDto {
            download_count: s.download_count,
            id: s.id,
            file_id: s.file_id,
            url,
            expires_at: s.expires_at,
            created_at: s.created_at,
        }),
{
    FileShareDto {
        download_count: s.download_count,
        id: s.id,
        file_id: s.file_id,
        url,
        expires_at: s.expires_at,
        created_at: s.created_at,
    }
}

/// A link as listed later: its URL is not known any more (only the token's
/// hash is kept), so it is empty.
pub fn listed_share(s: &ShareRecord) -> (r: FileShareDto)
    ensures
        r.url@ == Seq::<char>::empty(),
        r.id == s.id && r.file_id == s.file_id && r.expires_at == s.expires_at
            && r.created_at == s.created_at && r.download_count == s.download_count,
{
    share_dto(s, String::new())
}

/// `DELETE /files/shares/{id}`: the link is revoked at `now`.
pub fn revoke_share(s: ShareRecord, now: i64) -> (r: ShareRecord)
    ensures
        r == (ShareRecord { revoked_at: Some(now), ..s }),
{
    ShareRecord { revoked_at: Some(now), ..s }
}

/// A new link opens: its stored hash is the hash of the token it was made
/// with, and a download through it right away, with its password if it has
/// one, is let through.
pub proof fn lemma_new_share_opens(raw: Seq<char>, password: Option<Seq<char>>, ttl: Option<i64>, now: i64)
    requires
        now <= i64::MAX - 720 * 3_600_000_000,
    ensures
        share_download_spec(
            false,
            Some((now + share_ttl_spec(ttl) * 3_600_000_000) as i64),
            match password {
                Some(p) => Some(sha256_hex_spec(p)),
                None => None,
            },
            password,
            now,
        ) is Ok,
{
}

/// A revoked link refuses every download, whatever the password.
pub proof fn lemma_revoked_refuses(expires_at: Option<i64>, h: Option<Seq<char>>, p: Option<Seq<char>>, now: i64)
    ensures
        share_download_spec(true, expires_at, h, p, now) == Err::<(), Seq<char>>("share revoked"@),
{
}

/// The lifetime of a new link: a requested lifetime of 1 to 720 hours is kept
/// as asked, shorter requests get 1 hour, longer ones 720, and no request
/// gets 24.
pub proof fn lemma_share_ttl_kept_in_range(t: i64)
    ensures
        1 <= t <= 720 ==> share_ttl_spec(Some(t)) == t,
        t < 1 ==> share_ttl_spec(Some(t)) == 1,
        t > 720 ==> share_ttl_spec(Some(t)) == 720,
        share_ttl_spec(None) == 24,
{
}

/// A live link without a password opens; one whose expiry has passed is
/// gone (`share expired`), still at its expiry instant it opens; a password
/// whose hash differs from the stored one is refused as unauthorized.
pub proof fn lemma_share_expiry_and_password(e: i64, now: i64, h: Seq<char>, p: Option<Seq<char>>)
    ensures
        share_download_spec(false, None, None, p, now) is Ok,
        e < now ==> share_download_spec(false, Some(e), None, p, now) == Err::<(), Seq<char>>("share expired"@),
        e >= now ==> share_download_spec(false, Some(e), None, p, now) is Ok,
        provided_hash(p) != h ==> share_download_spec(false, None, Some(h), p, now) == Err::<(), Seq<char>>(
            Seq::empty(),
        ),
        share_answer(Err::<(), AppError>(AppError::Unauthorized), Err(Seq::empty())),
{
}

/// How a refusal is answered: a revoked or expired link is gone (410) with
/// its reason, a wrong or missing password is unauthorized (401).
pub proof fn lemma_share_refusal_status(r: Result<(), AppError>, m: Seq<char>)
    ensures
        m.len() > 0 && share_answer(r, Err(m)) ==> (r matches Err(AppError::Gone(t)) && t@ == m),
        share_answer(r, Err(Seq::empty())) ==> r == Err::<(), AppError>(AppError::Unauthorized),
        share_answer(r, Ok(())) ==> r is Ok,
{
}

} // verus!
