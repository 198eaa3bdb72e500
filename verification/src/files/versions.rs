//! File versions: the snapshot taken before a file's content changes, a new
//! version's content, and restoring a snapshot.
use vstd::prelude::*;

use super::ingest::{bad_request_starting, decoded};
use super::{
    enforce_org_quota, enforce_quota, quota_message, too_large_message, FileRecord, ORG_QUOTA_BYTES,
    MAX_FILE_BYTES, USER_QUOTA_BYTES, storage_key_for, storage_key_spec,
};
use crate::crypto::base64_decode;
use crate::error::{bad_request, lit, AppError};

verus! {

/// A stored snapshot of a file's content.
pub struct VersionRecord {
    pub id: u128,
    pub file_id: u128,
    pub version_no: i32,
    pub storage_key: String,
    pub filename: String,
    pub content_type: String,
    pub size_bytes: i64,
    pub sha256: Option<String>,
    pub created_at: i64,
}

/// A version as listed.
pub struct VersionDto {
    pub id: u128,
    pub version_no: i32,
    pub filename: String,
    pub content_type: String,
    pub size_bytes: i64,
    pub sha256: Option<String>,
    pub created_at: i64,
}

impl VersionDto {
    /// The listed view of a snapshot: all but the file and the storage key.
    pub fn from_record(m: VersionRecord) -> (r: VersionDto)
        ensures
            r == (VersionDto {
                id: m.id,
                version_no: m.version_no,
                filename: m.filename,
                content_type: m.content_type,
                size_bytes: m.size_bytes,
                sha256: m.sha256,
                created_at: m.created_at,
            }),
    {
        VersionDto {
            id: m.id,
            version_no: m.version_no,
            filename: m.filename,
            content_type: m.content_type,
            size_bytes: m.size_bytes,
            sha256: m.sha256,
            created_at: m.created_at,
        }
    }
}

/// The files whose versions a user may see or change: reachable and not in
/// the trash (else 404).
pub fn check_live_access(deleted_at: Option<i64>, accessible: bool) -> (r: Result<(), AppError>)
    ensures
        r is Ok <==> (deleted_at is None && accessible),
        r is Err ==> r == Err::<(), AppError>(AppError::NotFound),
{
    if deleted_at.is_some() || !accessible {
        return Err(AppError::NotFound);
    }
    Ok(())
}

/// The snapshot of `file`'s current content under number `version_no`.
pub fn snapshot_of(file: &FileRecord, id: u128, version_no: i32, now: i64) -> (r: VersionRecord)
    ensures
        r == (VersionRecord {
            id,
            file_id: file.id,
            version_no,
            storage_key: file.storage_key,
            filename: file.filename,
            content_type: file.content_type,
            size_bytes: file.size_bytes,
            sha256: file.sha256,
            created_at: now,
        }),
{
    VersionRecord {
        id,
        file_id: file.id,
        version_no,
        storage_key: file.storage_key.clone(),
        filename: file.filename.clone(),
        content_type: file.content_type.clone(),
        size_bytes: file.size_bytes,
        sha256: file.sha256.clone(),
        created_at: now,
    }
}

/// The content of a new version: base64 (400 `base64 decode: ...`
/// otherwise) of at most 50 MiB.
pub fn decode_version(data_base64: &str) -> (r: Result<Vec<u8>, AppError>)
    ensures
        decoded(data_base64@) is None ==> bad_request_starting(r, "base64 decode: "@),
        decoded(data_base64@) matches Some(d) ==> if d.len() > MAX_FILE_BYTES {
            bad_request(r, too_large_message())
        } else {
            r matches Ok(v) && v@ == d
        },
{
    let data = match base64_decode(data_base64.as_bytes()) {
        Ok(d) => d,
        Err(e) => {
            let mut m = lit("base64 decode: ");
            let ghost p = m@;
            m.append(e.as_str());
            assert(m@.subrange(0, p.len() as int) == p);
            return Err(AppError::BadRequest(m));
        },
    };
    if data.len() > MAX_FILE_BYTES {
        return Err(AppError::BadRequest(lit("file too large: max 52428800 bytes")));
    }
    Ok(data)
}

/// The quotas a new version must fit: the user's, then the organization's
/// when the file belongs to one.
pub fn check_version_quota(size: usize, user_used: i64, org_id: Option<u128>, org_used: i64) -> (r: Result<(), AppError>)
    requires
        size <= MAX_FILE_BYTES,
        i64::MIN + MAX_FILE_BYTES <= user_used <= i64::MAX - MAX_FILE_BYTES,
        i64::MIN + MAX_FILE_BYTES <= org_used <= i64::MAX - MAX_FILE_BYTES,
    ensures
        user_used + size > USER_QUOTA_BYTES ==> bad_request(r, quota_message(""@, user_used, size as i64, USER_QUOTA_BYTES)),
        user_used + size <= USER_QUOTA_BYTES ==> if org_id is Some && org_used + size > ORG_QUOTA_BYTES {
            bad_request(r, quota_message("org "@, org_used, size as i64, ORG_QUOTA_BYTES))
        } else {
            r is Ok
        },
{
    enforce_quota(user_used, size as i64)?;
    match org_id {
        Some(_) => enforce_org_quota(org_used, size as i64),
        None => Ok(()),
    }
}

/// Where a new version's bytes go: the file's object-store key for the new
/// id (`storage_key_for`), under `o/{org}/` for an organization's file and
/// `u/{user}/` for a personal one.
pub fn version_key(uid: u128, org_id: Option<u128>, new_id: u128) -> (r: String)
    ensures
        r@ == storage_key_spec(uid, org_id, new_id),
{
    storage_key_for(uid, org_id, new_id)
}

/// The file after a new version is stored: new key, type, size and digest;
/// its name, owner, tags and the rest stay.
pub open spec fn with_content(
    f: FileRecord,
    storage_key: String,
    content_type: String,
    size_bytes: i64,
    sha256: String,
) -> FileRecord {
    FileRecord { storage_key, content_type, size_bytes, sha256: Some(sha256), ..f }
}

/// Puts a new version's content in place.
pub fn replace_content(
    f: FileRecord,
    storage_key: String,
    content_type: String,
    size_bytes: i64,
    sha256: String,
) -> (r: FileRecord)
    ensures
        r == with_content(f, storage_key, content_type, size_bytes, sha256),
{
    FileRecord { storage_key, content_type, size_bytes, sha256: Some(sha256), ..f }
}

/// The file after a snapshot is restored: the snapshot's key, name, type,
/// size and digest.
pub open spec fn restored(f: FileRecord, v: VersionRecord) -> FileRecord {
    FileRecord {
        storage_key: v.storage_key,
        filename: v.filename,
        content_type: v.content_type,
        size_bytes: v.size_bytes,
        sha256: v.sha256,
        ..f
    }
}

/// Restores a snapshot.
pub fn restore_version(f: FileRecord, v: VersionRecord) -> (r: FileRecord)
    ensures
        r == restored(f, v),
{
    FileRecord {
        storage_key: v.storage_key,
        filename: v.filename,
        content_type: v.content_type,
        size_bytes: v.size_bytes,
        sha256: v.sha256,
        ..f
    }
}

/// Restoring the snapshot taken before a new version undoes the new
/// version: the file is as it was before.
pub proof fn lemma_restore_undoes_new_version(
    f: FileRecord,
    snapshot_id: u128,
    version_no: i32,
    now: i64,
    key: String,
    content_type: String,
    size: i64,
    sha: String,
)
    ensures
        restored(
            with_content(f, key, content_type, size, sha),
            VersionRecord {
                id: snapshot_id,
                file_id: f.id,
                version_no,
                storage_key: f.storage_key,
                filename: f.filename,
                content_type: f.content_type,
                size_bytes: f.size_bytes,
                sha256: f.sha256,
                created_at: now,
            },
        ) == f,
{
}

} // verus!
