//! Uploads that arrive whole, as base64 text: the JSON upload and the
//! account import. What each checks, in which order, and what is stored.
use vstd::prelude::*;

use super::magic::{image_magic_ok, image_magic_spec};
use super::{
    contains_id, enforce_org_quota, enforce_quota, quota_message, too_large_message,
    Base64UploadInput, FileRecord, ImportFile, ORG_QUOTA_BYTES, MAX_FILE_BYTES, USER_QUOTA_BYTES,
};
use crate::crypto::{base64_decode, base64_standard_decode, hex_encode, hex_lower, sha256, sha256_digest, utf8};
use crate::error::{bad_request, lit, AppError};

verus! {

/// The bytes that the base64 text of an upload decodes to.
pub open spec fn decoded(text: Seq<char>) -> Option<Seq<u8>> {
    base64_standard_decode(utf8(text))
}

/// `r` is a 400 whose message starts with `prefix`.
pub open spec fn bad_request_starting(r: Result<Vec<u8>, AppError>, prefix: Seq<char>) -> bool {
    r matches Err(AppError::BadRequest(m)) && m@.len() >= prefix.len() && m@.subrange(0, prefix.len() as int) == prefix
}

/// Decodes the base64 text of an upload: 400 `invalid base64: ...` when it
/// is not base64, 400 when it is over 50 MiB, 400 when it claims to be an
/// image and does not look like one.
pub fn decode_upload(data_base64: &str, content_type: &str) -> (r: Result<Vec<u8>, AppError>)
    ensures
        decoded(data_base64@) is None ==> bad_request_starting(r, "invalid base64: "@),
        decoded(data_base64@) matches Some(d) ==> {
            if d.len() > MAX_FILE_BYTES {
                bad_request(r, too_large_message())
            } else if !image_magic_spec(content_type@, d) {
                bad_request(r, "image magic-byte check failed"@)
            } else {
                r matches Ok(v) && v@ == d
            }
        },
{
    let data = match base64_decode(data_base64.as_bytes()) {
        Ok(d) => d,
        Err(e) => {
            let mut m = lit("invalid base64: ");
            let ghost p = m@;
            m.append(e.as_str());
            assert(m@.subrange(0, p.len() as int) == p);
            return Err(AppError::BadRequest(m));
        },
    };
    if data.len() > MAX_FILE_BYTES {
        return Err(AppError::BadRequest(lit("file too large: max 52428800 bytes")));
    }
    if !image_magic_ok(content_type, data.as_slice()) {
        return Err(AppError::BadRequest(lit("image magic-byte check failed")));
    }
    Ok(data)
}

/// `POST /files/json` after decoding: the user's quota (`user_used` bytes
/// stored), then, for an organization's file, membership (else 401) and the
/// organization's quota (`org_used` bytes stored).
pub fn check_json_placement(
    size: usize,
    user_used: i64,
    org_id: Option<u128>,
    user_orgs: &Vec<u128>,
    org_used: i64,
) -> (r: Result<(), AppError>)
    requires
        size <= MAX_FILE_BYTES,
        i64::MIN + MAX_FILE_BYTES <= user_used <= i64::MAX - MAX_FILE_BYTES,
        i64::MIN + MAX_FILE_BYTES <= org_used <= i64::MAX - MAX_FILE_BYTES,
    ensures
        user_used + size > USER_QUOTA_BYTES ==> bad_request(r, quota_message(""@, user_used, size as i64, USER_QUOTA_BYTES)),
        user_used + size <= USER_QUOTA_BYTES ==> match org_id {
            None => r is Ok,
            Some(o) => if !user_orgs@.contains(o) {
                r == Err::<(), AppError>(AppError::Unauthorized)
            } else if org_used + size > ORG_QUOTA_BYTES {
                bad_request(r, quota_message("org "@, org_used, size as i64, ORG_QUOTA_BYTES))
            } else {
                r is Ok
            },
        },
{
    let n = size as i64;
    enforce_quota(user_used, n)?;
    match org_id {
        None => Ok(()),
        Some(o) => {
            if !contains_id(user_orgs, o) {
                return Err(AppError::Unauthorized);
            }
            enforce_org_quota(org_used, n)
        },
    }
}

/// The stored record of a new upload: no tags, description or deletion yet.
pub fn new_file_record(
    id: u128,
    owner_id: u128,
    storage_key: String,
    filename: String,
    content_type: String,
    size_bytes: i64,
    created_at: i64,
    sha256_hex: String,
    org_id: Option<u128>,
) -> (r: FileRecord)
    ensures
        r.id == id,
        r.owner_id == owner_id,
        r.storage_key == storage_key,
        r.filename == filename,
        r.content_type == content_type,
        r.size_bytes == size_bytes,
        r.created_at == created_at,
        r.sha256 == Some(sha256_hex),
        r.deleted_at is None,
        r.tags@.len() == 0,
        r.org_id == org_id,
        r.description is None,
{
    FileRecord {
        id,
        owner_id,
        storage_key,
        filename,
        content_type,
        size_bytes,
        created_at,
        sha256: Some(sha256_hex),
        deleted_at: None,
        tags: Vec::new(),
        org_id,
        description: None,
    }
}

/// Lower-case hex of the SHA-256 of the bytes.
pub fn content_digest(data: &[u8]) -> (r: String)
    ensures
        r@ == hex_lower(sha256_digest(data@)),
{
    let d = sha256(data);
    hex_encode(d.as_slice())
}

/// Why one file of an import is skipped, before it is stored: its text is
/// not base64, it is over 50 MiB, or the user's quota (`used` bytes stored)
/// has no room for it. Imports do not check image types.
pub open spec fn import_skips(f: ImportFile, used: i64) -> bool {
    match decoded(f.data_base64@) {
        None => true,
        Some(d) => d.len() > MAX_FILE_BYTES || used + d.len() > USER_QUOTA_BYTES,
    }
}

/// The bytes of one imported file, or `None` when it is skipped (see
/// `import_skips`).
pub fn import_data(f: &ImportFile, used: i64) -> (r: Option<Vec<u8>>)
    requires
        i64::MIN + MAX_FILE_BYTES <= used <= i64::MAX - MAX_FILE_BYTES,
    ensures
        r is None <==> import_skips(*f, used),
        r matches Some(v) ==> decoded(f.data_base64@) == Some(v@),
{
    let data = match base64_decode(f.data_base64.as_str().as_bytes()) {
        Ok(d) => d,
        Err(_) => return None,
    };
    if data.len() > MAX_FILE_BYTES {
        return None;
    }
    if enforce_quota(used, data.len() as i64).is_err() {
        return None;
    }
    Some(data)
}

/// The stored record of an imported file: the file's own name, type, tags
/// and description, as a personal file.
pub fn imported_record(
    f: ImportFile,
    id: u128,
    owner_id: u128,
    storage_key: String,
    size_bytes: i64,
    created_at: i64,
    sha256_hex: String,
) -> (r: FileRecord)
    ensures
        r == (FileRecord {
            id,
            owner_id,
            storage_key,
            filename: f.filename,
            content_type: f.content_type,
            size_bytes,
            created_at,
            sha256: Some(sha256_hex),
            deleted_at: None,
            tags: f.tags,
            org_id: None,
            description: f.description,
        }),
{
    FileRecord {
        id,
        owner_id,
        storage_key,
        filename: f.filename,
        content_type: f.content_type,
        size_bytes,
        created_at,
        sha256: Some(sha256_hex),
        deleted_at: None,
        tags: f.tags,
        org_id: None,
        description: f.description,
    }
}

/// Which imported files are skipped: one whose text is not base64, one over
/// 50 MiB, and one that would take the user past 500 MiB; every other file
/// is stored.
pub proof fn lemma_import_skip_rule(f: ImportFile, used: i64)
    ensures
        decoded(f.data_base64@) is None ==> import_skips(f, used),
        decoded(f.data_base64@) matches Some(d) ==> (import_skips(f, used) <==> (d.len() > 50 * 1024 * 1024 || used + d.len()
            > 500 * 1024 * 1024)),
{
}

} // verus!
