//! What happens to a stored file over its life: who may act on it, the trash
//! (delete, restore, purge), renaming and describing, moving it between a
//! user and an organization, presigned uploads, comments and stars.
use vstd::prelude::*;

use super::{contains_id, enforce_org_quota, quota_message, storage_key_for, storage_key_spec, FileRecord, ORG_QUOTA_BYTES};
use crate::error::{bad_request, AppError};
use crate::ids::uuid_text;

verus! {

/// Only the owner acts on the file; to anyone else it does not exist.
pub fn require_owner(owner_id: u128, uid: u128) -> (r: Result<(), AppError>)
    ensures
        r is Ok <==> owner_id == uid,
        r is Err ==> r == Err::<(), AppError>(AppError::NotFound),
{
    if owner_id != uid {
        return Err(AppError::NotFound);
    }
    Ok(())
}

/// Only users who reach the file act on it; to anyone else it does not exist.
pub fn require_access(accessible: bool) -> (r: Result<(), AppError>)
    ensures
        r is Ok <==> accessible,
        r is Err ==> r == Err::<(), AppError>(AppError::NotFound),
{
    if !accessible {
        return Err(AppError::NotFound);
    }
    Ok(())
}

/// The file moved to the trash at `now`.
pub open spec fn in_trash(f: FileRecord, now: i64) -> FileRecord {
    FileRecord { deleted_at: Some(now), ..f }
}

/// The file taken back out of the trash.
pub open spec fn out_of_trash(f: FileRecord) -> FileRecord {
    FileRecord { deleted_at: None, ..f }
}

/// `DELETE /files/{id}`: the file goes to the trash.
pub fn trash_file(f: FileRecord, now: i64) -> (r: FileRecord)
    ensures
        r == in_trash(f, now),
{
    FileRecord { deleted_at: Some(now), ..f }
}

/// Restoring and purging act on the owner's trashed files only (else 404).
pub fn check_trashed_own(owner_id: u128, uid: u128, deleted_at: Option<i64>) -> (r: Result<(), AppError>)
    ensures
        r is Ok <==> (owner_id == uid && deleted_at is Some),
        r is Err ==> r == Err::<(), AppError>(AppError::NotFound),
{
    if owner_id != uid || deleted_at.is_none() {
        return Err(AppError::NotFound);
    }
    Ok(())
}

/// `POST /trash/{id}/restore`: the file leaves the trash.
pub fn restore_file(f: FileRecord) -> (r: FileRecord)
    ensures
        r == out_of_trash(f),
{
    FileRecord { deleted_at: None, ..f }
}

/// Restoring a deleted file undoes the delete.
pub proof fn lemma_restore_undoes_delete(f: FileRecord, now: i64)
    requires
        f.deleted_at is None,
    ensures
        out_of_trash(in_trash(f, now)) == f,
        in_trash(f, now).deleted_at is Some,
{
}

/// A share of a file: its id, the file, and when it was revoked.
pub struct ShareState {
    pub id: u128,
    pub file_id: u128,
    pub revoked_at: Option<i64>,
}

/// Deleting a file revokes its live shares at `now`; other shares stay.
pub open spec fn revoked_for(s: ShareState, file_id: u128, now: i64) -> ShareState {
    if s.file_id == file_id && s.revoked_at is None {
        ShareState { revoked_at: Some(now), ..s }
    } else {
        s
    }
}

/// Revokes the live shares of a deleted file (see `revoked_for`).
pub fn revoke_shares_of(shares: Vec<ShareState>, file_id: u128, now: i64) -> (r: Vec<ShareState>)
    ensures
        r@.len() == shares@.len(),
        forall|i: int| 0 <= i < r@.len() ==> #[trigger] r@[i] == revoked_for(shares@[i], file_id, now),
{
    let ghost orig = shares@;
    let mut shares = shares;
    let mut out: Vec<ShareState> = Vec::new();
    let n = shares.len();
    let mut i: usize = 0;
    while i < n
        invariant
            n == orig.len(),
            i <= n,
            shares@ == orig.subrange(i as int, n as int),
            out@.len() == i,
            forall|j: int| 0 <= j < i ==> #[trigger] out@[j] == revoked_for(orig[j], file_id, now),
        decreases n - i,
    {
        let s = shares.remove(0);
        assert(s == orig[i as int]);
        assert(shares@ == orig.subrange(i + 1, n as int));
        if s.file_id == file_id && s.revoked_at.is_none() {
            out.push(ShareState { revoked_at: Some(now), ..s });
        } else {
            out.push(s);
        }
        i = i + 1;
    }
    out
}

/// Once a file is deleted, none of its links works any more: every share of
/// it is revoked, and a revoked link refuses every download.
pub proof fn lemma_deleted_file_links_stop(
    shares: Seq<ShareState>,
    file_id: u128,
    now: i64,
    i: int,
    expires_at: Option<i64>,
    password_hash: Option<Seq<char>>,
    given: Option<Seq<char>>,
    later: i64,
)
    requires
        0 <= i < shares.len(),
        shares[i].file_id == file_id,
    ensures
        revoked_for(shares[i], file_id, now).revoked_at is Some,
        super::shares::share_download_spec(
            revoked_for(shares[i], file_id, now).revoked_at is Some,
            expires_at,
            password_hash,
            given,
            later,
        ) is Err,
{
}

/// `PATCH /files/{id}`: a new name.
pub fn rename_file(f: FileRecord, filename: String) -> (r: FileRecord)
    ensures
        r == (FileRecord { filename, ..f }),
{
    FileRecord { filename, ..f }
}

/// `PATCH /files/{id}/describe`: a new description.
pub fn describe_file(f: FileRecord, description: String) -> (r: FileRecord)
    ensures
        r == (FileRecord { description: Some(description), ..f }),
{
    FileRecord { description: Some(description), ..f }
}

/// `PATCH /files/{id}/move`: the organization to move the file into, none
/// for the owner's personal space.
pub struct MoveInput {
    pub org_id: Option<u128>,
}

/// The answer to `POST /files/presign-upload`: the new file and the URL to
/// upload its bytes to.
pub struct PresignUploadDto {
    pub file_id: u128,
    pub put_url: String,
    pub expires_in_seconds: u64,
}

/// Where a move puts the file and whether its bytes must be copied to a new
/// key.
pub struct MovePlan {
    pub new_key: String,
    pub key_changed: bool,
}

/// `PATCH /files/{id}/move`: the owner only (else 404); into an organization
/// only one the user belongs to (else 401) and whose quota has room for the
/// file (`org_used` bytes stored); the key is the file's key for its new
/// place.
pub fn plan_move(
    f: &FileRecord,
    uid: u128,
    org_id: Option<u128>,
    user_orgs: &Vec<u128>,
    org_used: i64,
) -> (r: Result<MovePlan, AppError>)
    requires
        i64::MIN <= org_used + f.size_bytes <= i64::MAX,
    ensures
        f.owner_id != uid ==> r == Err::<MovePlan, AppError>(AppError::NotFound),
        f.owner_id == uid && org_id is Some && !user_orgs@.contains(org_id->0) ==> r == Err::<
            MovePlan,
            AppError,
        >(AppError::Unauthorized),
        f.owner_id == uid && org_id is Some && user_orgs@.contains(org_id->0) && org_used + f.size_bytes
            > ORG_QUOTA_BYTES ==> bad_request(r, quota_message("org "@, org_used, f.size_bytes, ORG_QUOTA_BYTES)),
        r matches Ok(p) ==> f.owner_id == uid && p.new_key@ == storage_key_spec(uid, org_id, f.id)
            && p.key_changed == (p.new_key@ != f.storage_key@),
        f.owner_id == uid && (org_id is Some ==> user_orgs@.contains(org_id->0) && org_used + f.size_bytes
            <= ORG_QUOTA_BYTES) ==> r is Ok,
{
    if f.owner_id != uid {
        return Err(AppError::NotFound);
    }
    match org_id {
        Some(o) => {
            if !contains_id(user_orgs, o) {
                return Err(AppError::Unauthorized);
            }
            enforce_org_quota(org_used, f.size_bytes)?;
        },
        None => {},
    }
    let new_key = storage_key_for(uid, org_id, f.id);
    let key_changed = !new_key.eq(&f.storage_key);
    Ok(MovePlan { new_key, key_changed })
}

/// The file after a move: its organization, and its new key when it changed.
pub open spec fn moved(f: FileRecord, org_id: Option<u128>, p: MovePlan) -> FileRecord {
    if p.key_changed {
        FileRecord { org_id, storage_key: p.new_key, ..f }
    } else {
        FileRecord { org_id, ..f }
    }
}

/// Applies a move plan.
pub fn apply_move(f: FileRecord, org_id: Option<u128>, p: MovePlan) -> (r: FileRecord)
    ensures
        r == moved(f, org_id, p),
{
    if p.key_changed {
        FileRecord { org_id, storage_key: p.new_key, ..f }
    } else {
        FileRecord { org_id, ..f }
    }
}

/// After a move the file's key is always its key for its new place; moving a
/// personal file into an organization and back returns it to its personal
/// key.
pub proof fn lemma_move_keys(f: FileRecord, uid: u128, org: u128, p1: MovePlan, p2: MovePlan)
    requires
        f.storage_key@ == storage_key_spec(uid, None, f.id),
        p1.new_key@ == storage_key_spec(uid, Some(org), f.id),
        p1.key_changed == (p1.new_key@ != f.storage_key@),
        p2.new_key@ == storage_key_spec(uid, None, f.id),
        p2.key_changed == (p2.new_key@ != moved(f, Some(org), p1).storage_key@),
    ensures
        moved(f, Some(org), p1).storage_key@ == storage_key_spec(uid, Some(org), f.id),
        moved(moved(f, Some(org), p1), None, p2).storage_key@ == f.storage_key@,
        moved(moved(f, Some(org), p1), None, p2).org_id is None,
{
}

/// The record of a presigned upload before it is confirmed: held in the
/// trash (so no list shows it) with the announced size and no digest.
pub fn pending_upload(
    id: u128,
    owner_id: u128,
    storage_key: String,
    filename: String,
    content_type: String,
    size_bytes: i64,
    now: i64,
) -> (r: FileRecord)
    ensures
        r.id == id,
        r.owner_id == owner_id,
        r.storage_key == storage_key,
        r.filename == filename,
        r.content_type == content_type,
        r.size_bytes == size_bytes,
        r.created_at == now,
        r.sha256 is None,
        r.deleted_at == Some(now),
        r.tags@.len() == 0,
        r.org_id is None,
        r.description is None,
{
    FileRecord {
        id,
        owner_id,
        storage_key,
        filename,
        content_type,
        size_bytes,
        created_at: now,
        sha256: None,
        deleted_at: Some(now),
        tags: Vec::new(),
        org_id: None,
        description: None,
    }
}

/// `POST /files/{id}/confirm-upload`: the stored object's real size, and the
/// file out of hiding.
pub fn confirm_upload(f: FileRecord, actual_size: i64) -> (r: FileRecord)
    ensures
        r == (FileRecord { size_bytes: actual_size, deleted_at: None, ..f }),
{
    FileRecord { size_bytes: actual_size, deleted_at: None, ..f }
}

/// A comment on a file.
pub struct CommentDto {
    pub id: u128,
    pub file_id: u128,
    pub user_id: u128,
    pub body: String,
    pub created_at: i64,
}

/// Deleting a comment: it must belong to the file named in the path, and the
/// caller must have written it or own the file (else 404).
pub fn check_comment_delete(
    comment_file: u128,
    path_file: u128,
    author: u128,
    file_owner: u128,
    uid: u128,
) -> (r: Result<(), AppError>)
    ensures
        r is Ok <==> (comment_file == path_file && (author == uid || file_owner == uid)),
        r is Err ==> r == Err::<(), AppError>(AppError::NotFound),
{
    if comment_file != path_file {
        return Err(AppError::NotFound);
    }
    if author != uid && file_owner != uid {
        return Err(AppError::NotFound);
    }
    Ok(())
}

/// The starred files that are listed: those not in the trash, in order.
pub open spec fn listed_starred(rows: Seq<FileRecord>) -> Seq<FileRecord> {
    rows.filter(|r: FileRecord| r.deleted_at is None)
}

/// `GET /files/starred`: drops the trashed files.
pub fn starred_live(rows: Vec<FileRecord>) -> (r: Vec<FileRecord>)
    ensures
        r@ == listed_starred(rows@),
{
    let ghost orig = rows@;
    let mut rows = rows;
    let mut out: Vec<FileRecord> = Vec::new();
    let n = rows.len();
    let mut i: usize = 0;
    while i < n
        invariant
            n == orig.len(),
            i <= n,
            rows@ == orig.subrange(i as int, n as int),
            out@ == listed_starred(orig.subrange(0, i as int)),
        decreases n - i,
    {
        let r = rows.remove(0);
        assert(orig.subrange(0, i + 1).drop_last() == orig.subrange(0, i as int));
        assert(orig.subrange(0, i + 1).last() == r);
        assert(rows@ == orig.subrange(i + 1, n as int));
        proof {
            reveal_with_fuel(Seq::<_>::filter, 1);
        }
        if r.deleted_at.is_none() {
            out.push(r);
        }
        i = i + 1;
    }
    assert(orig.subrange(0, n as int) == orig);
    out
}

/// Deleting marks the file trashed at `now` and changes nothing else of it;
/// restoring clears the mark and changes nothing else.
pub proof fn lemma_trash_marks_only(f: FileRecord, now: i64)
    ensures
        in_trash(f, now).deleted_at == Some(now),
        out_of_trash(f).deleted_at is None,
        in_trash(f, now).id == f.id && in_trash(f, now).owner_id == f.owner_id && in_trash(f, now).org_id == f.org_id
            && in_trash(f, now).filename == f.filename && in_trash(f, now).storage_key == f.storage_key
            && in_trash(f, now).tags == f.tags && in_trash(f, now).size_bytes == f.size_bytes,
        out_of_trash(f).id == f.id && out_of_trash(f).owner_id == f.owner_id && out_of_trash(f).org_id == f.org_id
            && out_of_trash(f).filename == f.filename && out_of_trash(f).storage_key == f.storage_key
            && out_of_trash(f).tags == f.tags && out_of_trash(f).size_bytes == f.size_bytes,
{
}

/// Deleting a file revokes its live links at `now`, keeps the time of links
/// already revoked, and leaves the links of other files alone.
pub proof fn lemma_revoke_only_that_file(s: ShareState, file_id: u128, now: i64)
    ensures
        s.file_id == file_id && s.revoked_at is None ==> revoked_for(s, file_id, now).revoked_at == Some(now),
        s.revoked_at is Some ==> revoked_for(s, file_id, now) == s,
        s.file_id != file_id ==> revoked_for(s, file_id, now) == s,
        revoked_for(s, file_id, now).id == s.id && revoked_for(s, file_id, now).file_id == s.file_id,
{
}

/// A move puts the file in the organization asked (none for personal
/// space), takes the new key when it changed and keeps the old one
/// otherwise, and changes nothing else.
pub proof fn lemma_move_effect(f: FileRecord, org_id: Option<u128>, p: MovePlan)
    ensures
        moved(f, org_id, p).org_id == org_id,
        p.key_changed ==> moved(f, org_id, p).storage_key == p.new_key,
        !p.key_changed ==> moved(f, org_id, p).storage_key == f.storage_key,
        moved(f, org_id, p).id == f.id && moved(f, org_id, p).owner_id == f.owner_id && moved(f, org_id, p).filename
            == f.filename && moved(f, org_id, p).deleted_at == f.deleted_at && moved(f, org_id, p).tags == f.tags,
{
}

/// The starred list keeps exactly the files that are not in the trash.
pub proof fn lemma_starred_drops_trashed(rows: Seq<FileRecord>)
    ensures
        forall|i: int| 0 <= i < rows.len() ==> (listed_starred(rows).contains(#[trigger] rows[i]) <==> rows[i].deleted_at is None),
        forall|j: int| 0 <= j < listed_starred(rows).len() ==> (#[trigger] listed_starred(rows)[j]).deleted_at is None,
{
    let p = |r: FileRecord| r.deleted_at is None;
    assert(listed_starred(rows) == rows.filter(p));
    super::lemma_filter_exact(rows, p);
}

} // verus!
