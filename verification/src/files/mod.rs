//! Files: stored objects, their keys in the object store, who may reach them,
//! quotas, and the request bodies of the file endpoints.
use vstd::prelude::*;

use crate::error::{lit, AppError};
use crate::ids::{uuid_text, uuid_to_string};
use crate::text::{push_char, push_i64, signed_decimal};
use crate::validation::{failure_if, failure_views, len_within, length_ok, note, outcome, ValidationError};

pub mod archive;
pub mod bulk;
pub mod downloads;
pub mod ingest;
pub mod lifecycle;
pub mod listing;
pub mod magic;
pub mod range;
pub mod shares;
pub mod tags;
pub mod thumbnail;
pub mod uploads;
pub mod versions;
pub mod zip;

pub use magic::image_magic_ok;
pub use range::parse_range;

verus! {

/// Largest upload accepted, in bytes (50 MiB).
pub const MAX_FILE_BYTES: usize = 52_428_800;

/// Storage allowed to one user, in bytes (500 MiB).
pub const USER_QUOTA_BYTES: i64 = 524_288_000;

/// Storage allowed to one organization, in bytes (5 GiB).
pub const ORG_QUOTA_BYTES: i64 = 5_368_709_120;

/// A stored file as the rules read it.
pub struct FileRecord {
    pub id: u128,
    pub owner_id: u128,
    pub storage_key: String,
    pub filename: String,
    pub content_type: String,
    pub size_bytes: i64,
    pub created_at: i64,
    pub sha256: Option<String>,
    pub deleted_at: Option<i64>,
    pub tags: Vec<String>,
    pub org_id: Option<u128>,
    pub description: Option<String>,
}

/// A file as listed to its users.
pub struct FileDto {
    pub id: u128,
    pub filename: String,
    pub content_type: String,
    pub size_bytes: i64,
    pub created_at: i64,
    pub sha256: Option<String>,
    pub tags: Vec<String>,
    pub org_id: Option<u128>,
    pub description: Option<String>,
}

impl FileDto {
    /// The listed view of a stored file: every field but the owner, the
    /// storage key and the deletion time.
    pub fn from_record(m: FileRecord) -> (r: FileDto)
        ensures
            r.id == m.id,
            r.filename == m.filename,
            r.content_type == m.content_type,
            r.size_bytes == m.size_bytes,
            r.created_at == m.created_at,
            r.sha256 == m.sha256,
            r.tags == m.tags,
            r.org_id == m.org_id,
            r.description == m.description,
    {
        FileDto {
            id: m.id,
            filename: m.filename,
            content_type: m.content_type,
            size_bytes: m.size_bytes,
            created_at: m.created_at,
            sha256: m.sha256,
            tags: m.tags,
            org_id: m.org_id,
            description: m.description,
        }
    }
}

// ---------------------------------------------------------------------------
// Object-store keys
// ---------------------------------------------------------------------------

/// Where a file lives in the object store: `o/{org}/{file}` for an
/// organization's file, `u/{user}/{file}` for a personal one.
pub open spec fn storage_key_spec(uid: u128, org_id: Option<u128>, file_id: u128) -> Seq<char> {
    match org_id {
        Some(org) => seq!['o', '/'] + uuid_text(org) + seq!['/'] + uuid_text(file_id),
        None => seq!['u', '/'] + uuid_text(uid) + seq!['/'] + uuid_text(file_id),
    }
}

/// The object-store key of a file; the single rule that uploads and moves
/// share.
pub fn storage_key_for(uid: u128, org_id: Option<u128>, file_id: u128) -> (r: String)
    ensures
        r@ == storage_key_spec(uid, org_id, file_id),
{
    let mut s = String::new();
    match org_id {
        Some(org) => {
            push_char(&mut s, 'o');
            push_char(&mut s, '/');
            let o = uuid_to_string(org);
            s.append(o.as_str());
        },
        None => {
            push_char(&mut s, 'u');
            push_char(&mut s, '/');
            let u = uuid_to_string(uid);
            s.append(u.as_str());
        },
    }
    push_char(&mut s, '/');
    let f = uuid_to_string(file_id);
    s.append(f.as_str());
    s
}

/// The key of a file's thumbnail: `u/{user}/thumb/{file}.jpg`.
pub open spec fn thumb_key_spec(file_id: u128, uid: u128) -> Seq<char> {
    seq!['u', '/'] + uuid_text(uid) + "/thumb/"@ + uuid_text(file_id) + ".jpg"@
}

/// The object-store key of a file's thumbnail.
pub fn thumb_key(file_id: u128, uid: u128) -> (r: String)
    ensures
        r@ == thumb_key_spec(file_id, uid),
{
    let mut s = String::new();
    push_char(&mut s, 'u');
    push_char(&mut s, '/');
    let u = uuid_to_string(uid);
    s.append(u.as_str());
    s.append("/thumb/");
    let f = uuid_to_string(file_id);
    s.append(f.as_str());
    s.append(".jpg");
    s
}

/// Moving a file rewrites its key exactly when the key for its new place
/// differs from the stored one.
pub fn key_changes(new_key: &String, stored_key: &String) -> (r: bool)
    ensures
        r == (new_key@ != stored_key@),
{
    !new_key.eq(stored_key)
}

// ---------------------------------------------------------------------------
// Access
// ---------------------------------------------------------------------------

/// A user reaches a file they own, or a file of an organization they belong to.
pub open spec fn may_access(uid: u128, owner_id: u128, org_id: Option<u128>, user_orgs: Seq<u128>) -> bool {
    owner_id == uid || (org_id matches Some(o) && user_orgs.contains(o))
}

/// Whether `v` holds `x`.
pub fn contains_id(v: &Vec<u128>, x: u128) -> (r: bool)
    ensures
        r == v@.contains(x),
{
    let n = v.len();
    for i in 0..n
        invariant
            n == v@.len(),
            forall|j: int| 0 <= j < i ==> v@[j] != x,
    {
        if v[i] == x {
            return true;
        }
    }
    false
}

/// Whether user `uid`, member of the organizations `user_orgs`, may reach a
/// file owned by `owner_id` in organization `org_id`.
pub fn can_access(uid: u128, owner_id: u128, org_id: Option<u128>, user_orgs: &Vec<u128>) -> (r: bool)
    ensures
        r == may_access(uid, owner_id, org_id, user_orgs@),
{
    if owner_id == uid {
        return true;
    }
    match org_id {
        Some(org) => contains_id(user_orgs, org),
        None => false,
    }
}

/// The files of `rows` that the user reaches, in their order.
pub open spec fn accessible_rows(rows: Seq<FileRecord>, uid: u128, user_orgs: Seq<u128>) -> Seq<FileRecord> {
    rows.filter(|r: FileRecord| may_access(uid, r.owner_id, r.org_id, user_orgs))
}

/// Keeps the rows the user may reach (bulk actions act on these only).
pub fn resolve_accessible(rows: Vec<FileRecord>, uid: u128, user_orgs: &Vec<u128>) -> (r: Vec<FileRecord>)
    ensures
        r@ == accessible_rows(rows@, uid, user_orgs@),
{
    let ghost orig = rows@;
    let mut out: Vec<FileRecord> = Vec::new();
    let mut rows = rows;
    let n = rows.len();
    let mut i: usize = 0;
    while i < n
        invariant
            n == orig.len(),
            i <= n,
            rows@ == orig.subrange(i as int, n as int),
            out@ == accessible_rows(orig.subrange(0, i as int), uid, user_orgs@),
        decreases n - i,
    {
        let r = rows.remove(0);
        let ghost pre = orig.subrange(0, i as int);
        assert(orig.subrange(0, i + 1).drop_last() == pre);
        assert(orig.subrange(0, i + 1).last() == r);
        assert(rows@ == orig.subrange(i + 1, n as int));
        proof {
            reveal_with_fuel(Seq::<_>::filter, 1);
        }
        if can_access(uid, r.owner_id, r.org_id, user_orgs) {
            out.push(r);
        }
        i = i + 1;
    }
    assert(orig.subrange(0, n as int) == orig);
    out
}

// ---------------------------------------------------------------------------
// Quotas
// ---------------------------------------------------------------------------

/// The sum of `sizes`.
pub open spec fn sum_i64(sizes: Seq<i64>) -> int
    decreases sizes.len(),
{
    if sizes.len() == 0 {
        0
    } else {
        sum_i64(sizes.drop_last()) + sizes.last()
    }
}

/// Every running total of `sizes` fits in 64 bits (summing never overflows).
pub open spec fn sums_fit(sizes: Seq<i64>) -> bool {
    forall|k: int| 0 <= k <= sizes.len() ==> i64::MIN <= #[trigger] sum_i64(sizes.subrange(0, k)) <= i64::MAX
}

/// The bytes used: the sum of the stored sizes.
pub fn used_bytes(sizes: &Vec<i64>) -> (r: i64)
    requires
        sums_fit(sizes@),
    ensures
        r == sum_i64(sizes@),
{
    let n = sizes.len();
    let mut acc: i64 = 0;
    for i in 0..n
        invariant
            n == sizes@.len(),
            sums_fit(sizes@),
            acc == sum_i64(sizes@.subrange(0, i as int)),
    {
        assert(sizes@.subrange(0, i + 1).drop_last() == sizes@.subrange(0, i as int));
        assert(i64::MIN <= sum_i64(sizes@.subrange(0, i + 1)) <= i64::MAX);
        acc = acc + sizes[i];
    }
    assert(sizes@.subrange(0, n as int) == sizes@);
    acc
}

/// The refusal message of a quota check:
/// `{prefix}quota exceeded: {used} used + {incoming} incoming > {limit} limit`.
pub open spec fn quota_message(prefix: Seq<char>, used: i64, incoming: i64, limit: i64) -> Seq<char> {
    prefix + "quota exceeded: "@ + signed_decimal(used as int) + " used + "@ + signed_decimal(incoming as int)
        + " incoming > "@ + signed_decimal(limit as int) + " limit"@
}

/// Checks that `incoming` more bytes fit beside `used` under `limit`.
fn check_quota(prefix: &str, used: i64, incoming: i64, limit: i64) -> (r: Result<(), AppError>)
    requires
        i64::MIN <= used + incoming <= i64::MAX,
    ensures
        used + incoming <= limit ==> r is Ok,
        used + incoming > limit ==> crate::error::bad_request(r, quota_message(prefix@, used, incoming, limit)),
{
    if used + incoming > limit {
        let mut m = lit(prefix);
        m.append("quota exceeded: ");
        push_i64(&mut m, used);
        m.append(" used + ");
        push_i64(&mut m, incoming);
        m.append(" incoming > ");
        push_i64(&mut m, limit);
        m.append(" limit");
        return Err(AppError::BadRequest(m));
    }
    Ok(())
}

/// A user's upload of `incoming` bytes is refused when their stored bytes
/// (`used`) plus it would pass 500 MiB.
pub fn enforce_quota(used: i64, incoming: i64) -> (r: Result<(), AppError>)
    requires
        i64::MIN <= used + incoming <= i64::MAX,
    ensures
        used + incoming <= USER_QUOTA_BYTES ==> r is Ok,
        used + incoming > USER_QUOTA_BYTES ==> crate::error::bad_request(
            r,
            quota_message(""@, used, incoming, USER_QUOTA_BYTES),
        ),
{
    check_quota("", used, incoming, USER_QUOTA_BYTES)
}

/// An organization's upload of `incoming` bytes is refused when the bytes of
/// its live files (`used`) plus it would pass 5 GiB.
pub fn enforce_org_quota(used: i64, incoming: i64) -> (r: Result<(), AppError>)
    requires
        i64::MIN <= used + incoming <= i64::MAX,
    ensures
        used + incoming <= ORG_QUOTA_BYTES ==> r is Ok,
        used + incoming > ORG_QUOTA_BYTES ==> crate::error::bad_request(
            r,
            quota_message("org "@, used, incoming, ORG_QUOTA_BYTES),
        ),
{
    check_quota("org ", used, incoming, ORG_QUOTA_BYTES)
}

/// The refusal of an upload over the size cap.
pub open spec fn too_large_message() -> Seq<char> {
    "file too large: max 52428800 bytes"@
}

/// An upload of `len` bytes is refused above 50 MiB.
pub fn check_upload_size(len: usize) -> (r: Result<(), AppError>)
    ensures
        len <= MAX_FILE_BYTES ==> r is Ok,
        len > MAX_FILE_BYTES ==> crate::error::bad_request(r, too_large_message()),
{
    if len > MAX_FILE_BYTES {
        return Err(AppError::BadRequest(lit("file too large: max 52428800 bytes")));
    }
    Ok(())
}

// ---------------------------------------------------------------------------
// Versions
// ---------------------------------------------------------------------------

/// The largest of `v`, 0 for none.
pub open spec fn max_or_zero(v: Seq<i32>) -> int
    decreases v.len(),
{
    if v.len() == 0 {
        0
    } else {
        let m = max_or_zero(v.drop_last());
        if v.last() > m {
            v.last() as int
        } else {
            m
        }
    }
}

/// The number of the next snapshot of a file: one past the largest existing
/// version number (1 for the first).
pub fn next_version_no(existing: &Vec<i32>) -> (r: i32)
    requires
        max_or_zero(existing@) < i32::MAX,
    ensures
        r == max_or_zero(existing@) + 1,
{
    let n = existing.len();
    let mut m: i32 = 0;
    for i in 0..n
        invariant
            n == existing@.len(),
            m == max_or_zero(existing@.subrange(0, i as int)),
    {
        assert(existing@.subrange(0, i + 1).drop_last() == existing@.subrange(0, i as int));
        if existing[i] > m {
            m = existing[i];
        }
    }
    assert(existing@.subrange(0, n as int) == existing@);
    m + 1
}

// ---------------------------------------------------------------------------
// Request bodies
// ---------------------------------------------------------------------------

/// `PATCH /files/{id}`.
pub struct RenameInput {
    pub filename: String,
}

impl RenameInput {
    /// Whether the body passes its checks.
    pub open spec fn valid(&self) -> bool {
        len_within(self.filename@, 1, 255)
    }

    /// The failed checks, in field order, as (field, kind).
    pub open spec fn failures(&self) -> Seq<(Seq<char>, Seq<char>)> {
        failure_if(len_within(self.filename@, 1, 255), "filename"@, "length"@)
    }

    /// Runs every check; fails with all the failed ones.
    pub fn validate(&self) -> (r: Result<(), Vec<ValidationError>>)
        ensures
            r is Ok <==> self.valid(),
            r matches Err(v) ==> failure_views(v@) == self.failures(),
    {
        let mut errs: Vec<ValidationError> = Vec::new();
        note(&mut errs, length_ok(self.filename.as_str(), 1, 255), "filename", "length");
        outcome(errs)
    }
}

/// `PATCH /files/{id}/describe`.
pub struct DescribeInput {
    pub description: String,
}

impl DescribeInput {
    /// Whether the body passes its checks.
    pub open spec fn valid(&self) -> bool {
        len_within(self.description@, 0, 4000)
    }

    /// The failed checks, in field order, as (field, kind).
    pub open spec fn failures(&self) -> Seq<(Seq<char>, Seq<char>)> {
        failure_if(len_within(self.description@, 0, 4000), "description"@, "length"@)
    }

    /// Runs every check; fails with all the failed ones.
    pub fn validate(&self) -> (r: Result<(), Vec<ValidationError>>)
        ensures
            r is Ok <==> self.valid(),
            r matches Err(v) ==> failure_views(v@) == self.failures(),
    {
        let mut errs: Vec<ValidationError> = Vec::new();
        note(&mut errs, length_ok(self.description.as_str(), 0, 4000), "description", "length");
        outcome(errs)
    }
}

/// `POST /files/{id}/tags`.
pub struct TagInput {
    pub tag: String,
}

impl TagInput {
    /// Whether the body passes its checks.
    pub open spec fn valid(&self) -> bool {
        len_within(self.tag@, 1, 40)
    }

    /// The failed checks, in field order, as (field, kind).
    pub open spec fn failures(&self) -> Seq<(Seq<char>, Seq<char>)> {
        failure_if(len_within(self.tag@, 1, 40), "tag"@, "length"@)
    }

    /// Runs every check; fails with all the failed ones.
    pub fn validate(&self) -> (r: Result<(), Vec<ValidationError>>)
        ensures
            r is Ok <==> self.valid(),
            r matches Err(v) ==> failure_views(v@) == self.failures(),
    {
        let mut errs: Vec<ValidationError> = Vec::new();
        note(&mut errs, length_ok(self.tag.as_str(), 1, 40), "tag", "length");
        outcome(errs)
    }
}

/// `POST /files/{id}/comments`.
pub struct CommentInput {
    pub body: String,
}

impl CommentInput {
    /// Whether the body passes its checks.
    pub open spec fn valid(&self) -> bool {
        len_within(self.body@, 1, 4000)
    }

    /// The failed checks, in field order, as (field, kind).
    pub open spec fn failures(&self) -> Seq<(Seq<char>, Seq<char>)> {
        failure_if(len_within(self.body@, 1, 4000), "body"@, "length"@)
    }

    /// Runs every check; fails with all the failed ones.
    pub fn validate(&self) -> (r: Result<(), Vec<ValidationError>>)
        ensures
            r is Ok <==> self.valid(),
            r matches Err(v) ==> failure_views(v@) == self.failures(),
    {
        let mut errs: Vec<ValidationError> = Vec::new();
        note(&mut errs, length_ok(self.body.as_str(), 1, 4000), "body", "length");
        outcome(errs)
    }
}

/// `POST /files/json` and `POST /files/{id}/versions`.
pub struct Base64UploadInput {
    pub filename: String,
    pub content_type: String,
    pub data_base64: String,
    pub org_id: Option<u128>,
}

impl Base64UploadInput {
    /// Whether the body passes its checks.
    pub open spec fn valid(&self) -> bool {
        len_within(self.filename@, 1, 255) && len_within(self.content_type@, 1, 255)
    }

    /// The failed checks, in field order, as (field, kind).
    pub open spec fn failures(&self) -> Seq<(Seq<char>, Seq<char>)> {
        failure_if(len_within(self.filename@, 1, 255), "filename"@, "length"@) + failure_if(len_within(self.content_type@, 1, 255), "content_type"@, "length"@)
    }

    /// Runs every check; fails with all the failed ones.
    pub fn validate(&self) -> (r: Result<(), Vec<ValidationError>>)
        ensures
            r is Ok <==> self.valid(),
            r matches Err(v) ==> failure_views(v@) == self.failures(),
    {
        let mut errs: Vec<ValidationError> = Vec::new();
        note(&mut errs, length_ok(self.filename.as_str(), 1, 255), "filename", "length");
        note(&mut errs, length_ok(self.content_type.as_str(), 1, 255), "content_type", "length");
        outcome(errs)
    }
}

/// `POST /files/presign-upload`.
pub struct PresignUploadInput {
    pub filename: String,
    pub content_type: String,
    pub size_bytes: i64,
}

impl PresignUploadInput {
    /// Whether the body passes its checks.
    pub open spec fn valid(&self) -> bool {
        len_within(self.filename@, 1, 255) && len_within(self.content_type@, 1, 255) && 1 <= self.size_bytes
            <= 5368709120
    }

    /// The failed checks, in field order, as (field, kind).
    pub open spec fn failures(&self) -> Seq<(Seq<char>, Seq<char>)> {
        failure_if(len_within(self.filename@, 1, 255), "filename"@, "length"@) + failure_if(len_within(self.content_type@, 1, 255), "content_type"@, "length"@) + failure_if(1 <= self.size_bytes <= 5368709120, "size_bytes"@, "range"@)
    }

    /// Runs every check; fails with all the failed ones.
    pub fn validate(&self) -> (r: Result<(), Vec<ValidationError>>)
        ensures
            r is Ok <==> self.valid(),
            r matches Err(v) ==> failure_views(v@) == self.failures(),
    {
        let mut errs: Vec<ValidationError> = Vec::new();
        note(&mut errs, length_ok(self.filename.as_str(), 1, 255), "filename", "length");
        note(&mut errs, length_ok(self.content_type.as_str(), 1, 255), "content_type", "length");
        note(&mut errs, 1 <= self.size_bytes && self.size_bytes <= 5368709120, "size_bytes", "range");
        outcome(errs)
    }
}

/// One file of `POST /me/import`.
pub struct ImportFile {
    pub filename: String,
    pub content_type: String,
    pub data_base64: String,
    pub tags: Vec<String>,
    pub description: Option<String>,
}

/// `POST /me/import`.
pub struct ImportRequest {
    pub files: Vec<ImportFile>,
}

impl ImportRequest {
    /// Whether the body passes its checks.
    pub open spec fn valid(&self) -> bool {
        1 <= self.files@.len() <= 1000
    }

    /// The failed checks, in field order, as (field, kind).
    pub open spec fn failures(&self) -> Seq<(Seq<char>, Seq<char>)> {
        failure_if(1 <= self.files@.len() <= 1000, "files"@, "length"@)
    }

    /// Runs every check; fails with all the failed ones.
    pub fn validate(&self) -> (r: Result<(), Vec<ValidationError>>)
        ensures
            r is Ok <==> self.valid(),
            r matches Err(v) ==> failure_views(v@) == self.failures(),
    {
        let mut errs: Vec<ValidationError> = Vec::new();
        note(&mut errs, 1 <= self.files.len() && self.files.len() <= 1000, "files", "length");
        outcome(errs)
    }
}

/// The answer of `POST /me/import`.
pub struct ImportResult {
    pub imported: u64,
    pub skipped: u64,
    pub bytes: i64,
}

/// What became of one imported file.
pub enum ImportOutcome {
    Imported { bytes: i64 },
    Skipped,
}

/// The import tally after one more file.
pub fn tally_import(acc: ImportResult, outcome: ImportOutcome) -> (r: ImportResult)
    requires
        acc.imported < u64::MAX,
        acc.skipped < u64::MAX,
        outcome matches ImportOutcome::Imported { bytes } ==> i64::MIN <= acc.bytes + bytes <= i64::MAX,
    ensures
        match outcome {
            ImportOutcome::Imported { bytes } => r.imported == acc.imported + 1 && r.skipped == acc.skipped
                && r.bytes == acc.bytes + bytes,
            ImportOutcome::Skipped => r.imported == acc.imported && r.skipped == acc.skipped + 1 && r.bytes
                == acc.bytes,
        },
{
    match outcome {
        ImportOutcome::Imported { bytes } => ImportResult {
            imported: acc.imported + 1,
            skipped: acc.skipped,
            bytes: acc.bytes + bytes,
        },
        ImportOutcome::Skipped => ImportResult {
            imported: acc.imported,
            skipped: acc.skipped + 1,
            bytes: acc.bytes,
        },
    }
}

/// `GET /me/quota`.
pub struct QuotaDto {
    pub used_bytes: i64,
    pub limit_bytes: i64,
}

/// The quota answer for a user with `used` bytes stored.
pub fn quota_dto(used: i64) -> (r: QuotaDto)
    ensures
        r.used_bytes == used,
        r.limit_bytes == USER_QUOTA_BYTES,
{
    QuotaDto { used_bytes: used, limit_bytes: USER_QUOTA_BYTES }
}

/// `POST /files/{id}/verify`.
pub struct VerifyDto {
    pub ok: bool,
    pub stored: Option<String>,
    pub computed: String,
}

/// Recomputes the SHA-256 of a stored object and compares it with the digest
/// recorded at upload.
pub fn verify_file(stored: Option<String>, content: &[u8]) -> (r: VerifyDto)
    ensures
        r.computed@ == crate::crypto::hex_lower(crate::crypto::sha256_digest(content@)),
        r.stored == stored,
        r.ok == (stored matches Some(s) && s@ == r.computed@),
{
    let d = crate::crypto::sha256(content);
    let computed = crate::crypto::hex_encode(d.as_slice());
    let ok = match &stored {
        Some(s) => s.eq(&computed),
        None => false,
    };
    VerifyDto { ok, stored, computed }
}

/// `GET /me/stats`.
pub struct MeStatsDto {
    pub files: u64,
    pub trashed: u64,
    pub total_bytes: i64,
    pub shares: u64,
    pub tokens: u64,
    pub webhooks: u64,
}

/// `GET /me/stats` from the counts and the sizes of the user's live files.
pub fn me_stats(
    live_sizes: &Vec<i64>,
    trashed: u64,
    live_shares: u64,
    live_tokens: u64,
    webhooks: u64,
) -> (r: MeStatsDto)
    requires
        sums_fit(live_sizes@),
        live_sizes@.len() <= u64::MAX,
    ensures
        r == (MeStatsDto {
            files: live_sizes@.len() as u64,
            trashed,
            total_bytes: sum_i64(live_sizes@) as i64,
            shares: live_shares,
            tokens: live_tokens,
            webhooks,
        }),
{
    MeStatsDto {
        files: live_sizes.len() as u64,
        trashed,
        total_bytes: used_bytes(live_sizes),
        shares: live_shares,
        tokens: live_tokens,
        webhooks,
    }
}

/// `POST /files/bulk`.
pub struct BulkResult {
    pub affected: u64,
}

/// `GET /files/{id}/presign`.
pub struct PresignedDto {
    pub url: String,
    pub expires_in_seconds: u64,
}

/// How long a presigned download link works, in seconds.
pub const PRESIGN_GET_SECONDS: u64 = 300;

/// How long a presigned upload link works, in seconds.
pub const PRESIGN_PUT_SECONDS: u64 = 900;

/// The query of `GET /files/{id}`.
pub struct DownloadQuery {
    pub inline: Option<bool>,
}

/// The largest of the numbers (0 when there are none, or all are below 0)
/// is at least every one of them, and is 0 or one of them.
pub proof fn lemma_max_or_zero_is_max(v: Seq<i32>)
    ensures
        forall|i: int| 0 <= i < v.len() ==> v[i] <= #[trigger] max_or_zero(v),
        max_or_zero(v) >= 0,
        max_or_zero(v) == 0 || exists|i: int| 0 <= i < v.len() && v[i] == max_or_zero(v),
    decreases v.len(),
{
    if v.len() > 0 {
        let w = v.drop_last();
        lemma_max_or_zero_is_max(w);
        assert forall|i: int| 0 <= i < v.len() implies v[i] <= #[trigger] max_or_zero(v) by {
            if i < v.len() - 1 {
                assert(v[i] == w[i]);
            }
        }
        if max_or_zero(v) != 0 {
            if v.last() > max_or_zero(w) {
                assert(v[v.len() - 1] == max_or_zero(v));
            } else {
                let i = choose|i: int| 0 <= i < w.len() && w[i] == max_or_zero(w);
                assert(v[i] == w[i]);
            }
        }
    }
}

/// The number of a new snapshot is above every existing version number,
/// whatever their order, and is one past the largest of them (1 when there
/// are none).
pub proof fn lemma_next_version_above_all(existing: Seq<i32>)
    ensures
        forall|i: int| 0 <= i < existing.len() ==> existing[i] < #[trigger] max_or_zero(existing) + 1,
        existing.len() == 0 ==> max_or_zero(existing) + 1 == 1,
        (exists|i: int| 0 <= i < existing.len() && existing[i] > 0) ==> exists|i: int|
            0 <= i < existing.len() && max_or_zero(existing) + 1 == existing[i] + 1,
{
    lemma_max_or_zero_is_max(existing);
    if exists|i: int| 0 <= i < existing.len() && existing[i] > 0 {
        let i = choose|i: int| 0 <= i < existing.len() && existing[i] > 0;
        assert(existing[i] <= max_or_zero(existing));
    }
}

/// Who reaches a file: its owner, and the members of the organization it
/// belongs to; nobody else.
pub proof fn lemma_access_rule(uid: u128, owner_id: u128, org_id: Option<u128>, user_orgs: Seq<u128>)
    ensures
        owner_id == uid ==> may_access(uid, owner_id, org_id, user_orgs),
        (org_id matches Some(o) && exists|k: int| 0 <= k < user_orgs.len() && user_orgs[k] == o) ==> may_access(
            uid,
            owner_id,
            org_id,
            user_orgs,
        ),
        (owner_id != uid && (org_id is None || !(exists|k: int| 0 <= k < user_orgs.len() && user_orgs[k] == org_id->0)))
            ==> !may_access(uid, owner_id, org_id, user_orgs),
{
}

/// The bulk selection keeps exactly the rows the user reaches.
pub proof fn lemma_accessible_rows_exact(rows: Seq<FileRecord>, uid: u128, user_orgs: Seq<u128>)
    ensures
        forall|i: int|
            0 <= i < rows.len() ==> (accessible_rows(rows, uid, user_orgs).contains(#[trigger] rows[i]) <==> (
            rows[i].owner_id == uid || (rows[i].org_id matches Some(o) && user_orgs.contains(o)))),
        forall|j: int|
            0 <= j < accessible_rows(rows, uid, user_orgs).len() ==> ((#[trigger] accessible_rows(rows, uid, user_orgs)[j]).owner_id
                == uid || (accessible_rows(rows, uid, user_orgs)[j].org_id matches Some(o) && user_orgs.contains(o))),
{
    let pred = |r: FileRecord| may_access(uid, r.owner_id, r.org_id, user_orgs);
    broadcast use Seq::lemma_filter_pred, Seq::lemma_filter_contains;
    assert(accessible_rows(rows, uid, user_orgs) == rows.filter(pred));
    assert forall|i: int| 0 <= i < rows.len() implies (accessible_rows(rows, uid, user_orgs).contains(#[trigger] rows[i])
        <==> pred(rows[i])) by {
        if accessible_rows(rows, uid, user_orgs).contains(rows[i]) {
            let j = choose|j: int| 0 <= j < rows.filter(pred).len() && rows.filter(pred)[j] == rows[i];
            assert(pred(rows.filter(pred)[j]));
        }
    }
    assert forall|j: int| 0 <= j < accessible_rows(rows, uid, user_orgs).len() implies pred(
        #[trigger] accessible_rows(rows, uid, user_orgs)[j],
    ) by {
        assert(pred(rows.filter(pred)[j]));
    }
}

/// The limits of uploads: 50 MiB per file, 500 MiB per user, 5 GiB per
/// organization.
pub proof fn lemma_upload_limits()
    ensures
        MAX_FILE_BYTES == 50 * 1024 * 1024,
        USER_QUOTA_BYTES == 500 * 1024 * 1024,
        ORG_QUOTA_BYTES == 5 * 1024 * 1024 * 1024,
{
}

/// A filter keeps exactly the elements that satisfy its predicate.
pub(crate) proof fn lemma_filter_exact<A>(s: Seq<A>, p: spec_fn(A) -> bool)
    ensures
        forall|i: int| 0 <= i < s.len() ==> (s.filter(p).contains(#[trigger] s[i]) <==> p(s[i])),
        forall|j: int| 0 <= j < s.filter(p).len() ==> p(#[trigger] s.filter(p)[j]),
{
    broadcast use Seq::lemma_filter_pred, Seq::lemma_filter_contains;
    assert forall|i: int| 0 <= i < s.len() implies (s.filter(p).contains(#[trigger] s[i]) <==> p(s[i])) by {
        if s.filter(p).contains(s[i]) {
            let j = choose|j: int| 0 <= j < s.filter(p).len() && s.filter(p)[j] == s[i];
            assert(p(s.filter(p)[j]));
        }
    }
}

/// A filter whose predicate holds everywhere keeps everything.
pub(crate) proof fn lemma_filter_all<A>(s: Seq<A>, p: spec_fn(A) -> bool)
    requires
        forall|x: A| #[trigger] p(x),
    ensures
        s.filter(p) == s,
    decreases s.len(),
{
    reveal_with_fuel(Seq::<_>::filter, 1);
    if s.len() > 0 {
        lemma_filter_all(s.drop_last(), p);
        assert(s.drop_last().push(s.last()) =~= s);
    } else {
        assert(s.filter(p) =~= s);
    }
}

/// Where keys put a file: an organization's file under `o/{org}/`, a
/// personal one under `u/{user}/`, each followed by the file's id.
pub proof fn lemma_storage_key_places(uid: u128, org_id: Option<u128>, file_id: u128)
    ensures
        storage_key_spec(uid, org_id, file_id).len() == 75,
        storage_key_spec(uid, org_id, file_id)[1] == '/' && storage_key_spec(uid, org_id, file_id)[38] == '/',
        storage_key_spec(uid, org_id, file_id).subrange(39, 75) == uuid_text(file_id),
        org_id matches Some(o) ==> storage_key_spec(uid, org_id, file_id)[0] == 'o' && storage_key_spec(
            uid,
            org_id,
            file_id,
        ).subrange(2, 38) == uuid_text(o),
        org_id is None ==> storage_key_spec(uid, org_id, file_id)[0] == 'u' && storage_key_spec(
            uid,
            org_id,
            file_id,
        ).subrange(2, 38) == uuid_text(uid),
{
    crate::ids::lemma_uuid_text_no_colon(uid);
    crate::ids::lemma_uuid_text_no_colon(file_id);
    let k = storage_key_spec(uid, org_id, file_id);
    match org_id {
        Some(o) => {
            crate::ids::lemma_uuid_text_no_colon(o);
            assert(k.subrange(2, 38) =~= uuid_text(o));
        },
        None => {
            assert(k.subrange(2, 38) =~= uuid_text(uid));
        },
    }
    assert(k.subrange(39, 75) =~= uuid_text(file_id));
}

/// Sums: the sum of one size is that size, of none is 0, and the sum of two
/// lists one after the other is the sum of their sums.
pub proof fn lemma_sum_additive(a: Seq<i64>, b: Seq<i64>, x: i64)
    ensures
        sum_i64(Seq::<i64>::empty()) == 0,
        sum_i64(seq![x]) == x,
        sum_i64(a + b) == sum_i64(a) + sum_i64(b),
    decreases b.len(),
{
    assert(seq![x].drop_last() =~= Seq::<i64>::empty());
    if b.len() == 0 {
        assert(a + b =~= a);
    } else {
        lemma_sum_additive(a, b.drop_last(), x);
        assert((a + b).drop_last() =~= a + b.drop_last());
        assert((a + b).last() == b.last());
    }
}

} // verus!
