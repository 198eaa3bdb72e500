use simu_backend::error::AppError;
use simu_backend::files::archive::{check_some_reachable, check_zip_request, finish_zip, zip_items};
use simu_backend::files::bulk::{affected_count, bulk_plan, BulkAction, BulkStep};
use simu_backend::files::downloads::{content_disposition, content_range, download_headers, head_headers};
use simu_backend::files::ingest::{check_json_placement, content_digest, decode_upload, import_data, new_file_record};
use simu_backend::files::lifecycle::{
    apply_move, check_comment_delete, check_trashed_own, confirm_upload, pending_upload, plan_move,
    restore_file, revoke_shares_of, starred_live, trash_file, ShareState,
};
use simu_backend::files::listing::{filter_by_name, filter_by_tag, list_limit, paginate};
use simu_backend::files::shares::{
    check_share_download, exported_share, new_share, share_password_hash, share_ttl_hours, share_url,
};
use simu_backend::files::tags::{add_tag, has_tag, remove_tag};
use simu_backend::files::thumbnail::{make_thumbnail, wants_thumbnail};
use simu_backend::files::uploads::{check_uploaded_image, upload_content_type, upload_filename, UploadProgress};
use simu_backend::files::versions::{check_version_quota, decode_version, restore_version, snapshot_of, replace_content, version_key};
use simu_backend::files::zip::zip_entry_names;
use simu_backend::files::{
    can_access, check_upload_size, enforce_org_quota,
    enforce_quota, image_magic_ok, next_version_no, parse_range, resolve_accessible,
    storage_key_for, thumb_key, used_bytes, verify_file, ImportFile,
};

const U: u128 = 0x0123456789abcdef0123456789abcdef;
const ORG: u128 = 0x000000000000000000000000000000aa;
const F: u128 = 0x000000000000000000000000000000ff;

fn file(id: u128, owner: u128, name: &str, created: i64, tags: &[&str]) -> simu_backend::files::FileRecord {
    simu_backend::files::FileRecord {
        id,
        owner_id: owner,
        storage_key: format!("k{id}"),
        filename: name.to_string(),
        content_type: "text/plain".to_string(),
        size_bytes: 10,
        created_at: created,
        sha256: None,
        deleted_at: None,
        tags: tags.iter().map(|t| t.to_string()).collect(),
        org_id: None,
        description: None,
    }
}

fn png_bytes() -> Vec<u8> {
    let img = image::RgbImage::from_pixel(600, 300, image::Rgb([10, 200, 30]));
    let mut out = std::io::Cursor::new(Vec::new());
    image::DynamicImage::ImageRgb8(img).write_to(&mut out, image::ImageFormat::Png).expect("png");
    out.into_inner()
}

#[test]
fn storage_keys_by_owner_and_org() {
    assert_eq!(storage_key_for(U, None, F), "u/01234567-89ab-cdef-0123-456789abcdef/00000000-0000-0000-0000-0000000000ff");
    assert_eq!(storage_key_for(U, Some(ORG), F), "o/00000000-0000-0000-0000-0000000000aa/00000000-0000-0000-0000-0000000000ff");
    assert_eq!(thumb_key(F, U), "u/01234567-89ab-cdef-0123-456789abcdef/thumb/00000000-0000-0000-0000-0000000000ff.jpg");
}

#[test]
fn ranges_are_parsed_within_the_object() {
    assert_eq!(parse_range("bytes=0-9", 100), Some((0, 9)));
    assert_eq!(parse_range("bytes=10-", 100), Some((10, 99)));
    assert_eq!(parse_range("bytes=5-4", 100), None);
    assert_eq!(parse_range("bytes=0-100", 100), None);
    assert_eq!(parse_range("items=0-1", 100), None);
    assert_eq!(parse_range("bytes=-5", 100), None);
    assert_eq!(parse_range("bytes=a-5", 100), None);
    assert_eq!(parse_range("bytes=0-", 0), None);
    assert_eq!(content_range(0, 9, 100), "bytes 0-9/100");
    assert_eq!(content_disposition(Some(true), "a.txt"), "inline; filename=\"a.txt\"");
    assert_eq!(content_disposition(None, "a.txt"), "attachment; filename=\"a.txt\"");
}

#[test]
fn download_header_sets() {
    let (status, h) = download_headers("text/plain", None, "a.txt", 10, Some((0, 9)), 100);
    assert_eq!(status, 206);
    assert_eq!(h.len(), 5);
    assert_eq!(h[4], ("content-range".to_string(), "bytes 0-9/100".to_string()));
    assert_eq!(h[2], ("content-length".to_string(), "10".to_string()));
    let (status, h) = download_headers("text/plain", Some(true), "a.txt", 100, None, 100);
    assert_eq!(status, 200);
    assert_eq!(h.len(), 4);
    assert_eq!(h[1].1, "inline; filename=\"a.txt\"");
    let hh = head_headers("image/png", 42, Some("abc"));
    assert_eq!(hh[1], ("content-length".to_string(), "42".to_string()));
    assert_eq!(hh[3], ("etag".to_string(), "\"abc\"".to_string()));
    assert_eq!(head_headers("x", -1, None)[3].1, "\"\"");
}

#[test]
fn image_magic_bytes() {
    let png = png_bytes();
    assert!(image_magic_ok("image/png", &png));
    assert!(!image_magic_ok("image/jpeg", &png));
    assert!(image_magic_ok("text/plain", b"anything"));
    assert!(!image_magic_ok("image/png", b"\x89PNG"));
    let jpeg = [0xffu8, 0xd8, 0xff, 0xe0, 0, 0, 0, 0, 0, 0, 0, 0];
    assert!(image_magic_ok("image/jpg", &jpeg));
    assert!(matches!(check_uploaded_image("image/gif", &png), Err(AppError::BadRequest(m)) if m == "image magic-byte check failed"));
}

#[test]
fn quota_messages_are_exact() {
    assert!(enforce_quota(100, 200).is_ok());
    assert!(matches!(
        enforce_quota(524_288_000, 1),
        Err(AppError::BadRequest(m)) if m == "quota exceeded: 524288000 used + 1 incoming > 524288000 limit"
    ));
    assert!(matches!(
        enforce_org_quota(5_368_709_120, 2),
        Err(AppError::BadRequest(m)) if m == "org quota exceeded: 5368709120 used + 2 incoming > 5368709120 limit"
    ));
    assert!(check_upload_size(52_428_800).is_ok());
    assert!(matches!(check_upload_size(52_428_801), Err(AppError::BadRequest(m)) if m == "file too large: max 52428800 bytes"));
    assert_eq!(used_bytes(&vec![1, 2, 3]), 6);
}

#[test]
fn versions_are_numbered_past_the_largest() {
    assert_eq!(next_version_no(&vec![]), 1);
    assert_eq!(next_version_no(&vec![3, 1, 2]), 4);
}

#[test]
fn tags_add_once_and_remove_all() {
    let tags = add_tag(vec!["a".into()], "b".into());
    assert_eq!(tags, vec!["a".to_string(), "b".to_string()]);
    let tags = add_tag(tags, "a".into());
    assert_eq!(tags, vec!["a".to_string(), "b".to_string()]);
    let tags = remove_tag(vec!["a".into(), "b".into(), "a".into()], &"a".to_string());
    assert_eq!(tags, vec!["b".to_string()]);
    assert!(has_tag(&tags, &"b".to_string()));
    assert!(!has_tag(&tags, &"a".to_string()));
}

#[test]
fn access_through_ownership_or_org() {
    assert!(can_access(U, U, None, &vec![]));
    assert!(can_access(U, 7, Some(ORG), &vec![ORG]));
    assert!(!can_access(U, 7, Some(ORG), &vec![]));
    assert!(!can_access(U, 7, None, &vec![ORG]));
    let mut mine = file(1, U, "a", 1, &[]);
    mine.org_id = None;
    let mut theirs = file(2, 9, "b", 2, &[]);
    theirs.org_id = Some(ORG);
    let other = file(3, 9, "c", 3, &[]);
    let rows = resolve_accessible(vec![mine, theirs, other], U, &vec![ORG]);
    let ids: Vec<u128> = rows.iter().map(|r| r.id).collect();
    assert_eq!(ids, vec![1, 2]);
}

#[test]
fn bulk_actions_write_the_right_files() {
    let mut trashed_mine = file(1, U, "a", 1, &["x"]);
    trashed_mine.deleted_at = Some(5);
    let live_mine = file(2, U, "b", 2, &["x", "y"]);
    let mut trashed_theirs = file(3, 9, "c", 3, &[]);
    trashed_theirs.deleted_at = Some(5);
    let rows = || vec![trashed_mine.clone_record(), live_mine.clone_record(), trashed_theirs.clone_record()];

    let del = bulk_plan(&BulkAction::Delete { ids: vec![] }, rows(), U);
    assert_eq!(del.len(), 1);
    assert!(matches!(del[0], BulkStep::SoftDelete { id: 2 }));

    let purge = bulk_plan(&BulkAction::Purge { ids: vec![] }, rows(), U);
    assert_eq!(purge.len(), 1);
    assert!(matches!(&purge[0], BulkStep::Purge { id: 1, storage_key } if storage_key == "k1"));

    let tag = bulk_plan(&BulkAction::Tag { ids: vec![], tag: "y".into() }, rows(), U);
    assert_eq!(tag.len(), 3);
    assert!(matches!(&tag[0], BulkStep::SetTags { id: 1, tags } if tags == &vec!["x".to_string(), "y".to_string()]));
    assert!(matches!(&tag[1], BulkStep::SetTags { id: 2, tags } if tags == &vec!["x".to_string(), "y".to_string()]));

    let untag = bulk_plan(&BulkAction::Untag { ids: vec![], tag: "x".into() }, rows(), U);
    assert!(matches!(&untag[1], BulkStep::SetTags { id: 2, tags } if tags == &vec!["y".to_string()]));

    assert_eq!(affected_count(&vec![true, false, true]), 2);
}

trait CloneRecord {
    fn clone_record(&self) -> Self;
}

impl CloneRecord for simu_backend::files::FileRecord {
    fn clone_record(&self) -> Self {
        simu_backend::files::FileRecord {
            id: self.id,
            owner_id: self.owner_id,
            storage_key: self.storage_key.clone(),
            filename: self.filename.clone(),
            content_type: self.content_type.clone(),
            size_bytes: self.size_bytes,
            created_at: self.created_at,
            sha256: self.sha256.clone(),
            deleted_at: self.deleted_at,
            tags: self.tags.clone(),
            org_id: self.org_id,
            description: self.description.clone(),
        }
    }
}

#[test]
fn zip_names_are_deduplicated() {
    let names = zip_entry_names(&vec!["a.txt".into(), "b.txt".into(), "a.txt".into(), "a.txt".into()]);
    assert_eq!(names, vec!["a.txt", "b.txt", "a.txt__1", "a.txt__2"]);
}

#[test]
fn zip_archive_is_built() {
    assert!(matches!(check_zip_request(0), Err(AppError::BadRequest(m)) if m == "ids required, max 200"));
    assert!(matches!(check_zip_request(201), Err(AppError::BadRequest(_))));
    assert!(check_zip_request(200).is_ok());
    assert!(matches!(check_some_reachable(0), Err(AppError::NotFound)));
    let z = zip_items(&vec![("a.txt".to_string(), b"hello".to_vec()), ("a.txt".to_string(), b"again".to_vec())])
        .unwrap_or_else(|_| panic!("zip"));
    let bytes = finish_zip(z).unwrap_or_else(|_| panic!("finish"));
    assert_eq!(&bytes[0..4], b"PK\x03\x04");
    let mut archive = zip::ZipArchive::new(std::io::Cursor::new(bytes)).expect("read back");
    assert_eq!(archive.len(), 2);
    let mut names = Vec::new();
    for i in 0..archive.len() {
        names.push(archive.by_index(i).expect("entry").name().to_string());
    }
    assert_eq!(names, vec!["a.txt".to_string(), "a.txt__1".to_string()]);
}

#[test]
fn zip_refuses_colliding_entry_names() {
    let items = vec![("a__1".to_string(), b"x".to_vec()), ("a".to_string(), b"y".to_vec()), ("a".to_string(), b"z".to_vec())];
    assert!(matches!(zip_items(&items), Err(AppError::Other(_))));
}

#[test]
fn gone_links_answer_410() {
    assert_eq!(AppError::Gone("share revoked".into()).status(), 410);
}

#[test]
fn zip_archive_depends_on_entries_alone() {
    let items = vec![("r.bin".to_string(), vec![7u8; 300]), ("s.txt".to_string(), b"same".to_vec())];
    let one = finish_zip(zip_items(&items).unwrap_or_else(|_| panic!("zip"))).unwrap_or_else(|_| panic!("finish"));
    let two = finish_zip(zip_items(&items).unwrap_or_else(|_| panic!("zip"))).unwrap_or_else(|_| panic!("finish"));
    assert_eq!(one, two);
    let other = vec![("r.bin".to_string(), vec![8u8; 300]), ("s.txt".to_string(), b"same".to_vec())];
    let three = finish_zip(zip_items(&other).unwrap_or_else(|_| panic!("zip"))).unwrap_or_else(|_| panic!("finish"));
    assert_ne!(one, three);
}

#[test]
fn listing_filters_and_pages() {
    assert_eq!(list_limit(None), 50);
    assert_eq!(list_limit(Some(500)), 200);
    let rows = vec![file(1, U, "Report.PDF", 30, &["work"]), file(2, U, "notes", 20, &[]), file(3, U, "report-2", 10, &["work"])];
    let tagged = filter_by_tag(rows, &"work".to_string());
    assert_eq!(tagged.len(), 2);
    let named = filter_by_name(tagged, "REPORT");
    assert_eq!(named.len(), 2);
    let page = paginate(named, 1);
    assert_eq!(page.items.len(), 1);
    assert_eq!(page.items[0].id, 1);
    assert_eq!(page.next_cursor, Some(30));
    let page = paginate(vec![file(4, U, "x", 5, &[])], 1);
    assert_eq!(page.items.len(), 1);
    assert_eq!(page.next_cursor, None);
}

#[test]
fn share_links_and_passwords() {
    assert_eq!(share_ttl_hours(None), 24);
    assert_eq!(share_ttl_hours(Some(0)), 1);
    assert_eq!(share_ttl_hours(Some(10_000)), 720);
    assert_eq!(share_url("https://s.example/", "tok"), "https://s.example/api/shares/tok");
    let h = share_password_hash(Some("abc")).expect("hash");
    assert_eq!(h, "ba7816bf8f01cfea414140de5dae2223b00361a396177a9cb410ff61f20015ad");
    assert!(check_share_download(false, None, Some(h.as_str()), Some("abc"), 0).is_ok());
    assert!(matches!(check_share_download(false, None, Some(h.as_str()), Some("abd"), 0), Err(AppError::Unauthorized)));
    assert!(matches!(check_share_download(false, None, Some(h.as_str()), None, 0), Err(AppError::Unauthorized)));
    assert!(matches!(check_share_download(true, None, None, None, 0), Err(AppError::Gone(m)) if m == "share revoked"));
    assert!(matches!(check_share_download(false, Some(5), None, None, 6), Err(AppError::Gone(m)) if m == "share expired"));
    let s = new_share(1, F, "raw", Some("pw"), None, 0);
    assert_eq!(s.expires_at, Some(24 * 3_600_000_000));
    assert_eq!(s.download_count, 0);
    assert!(check_share_download(false, s.expires_at, s.password_hash.as_deref(), Some("pw"), 1).is_ok());
}

#[test]
fn streamed_upload_hashes_and_parts() {
    let mut p = UploadProgress::new();
    assert!(matches!(p.push_chunk(b"hel"), Ok(None)));
    assert!(matches!(p.push_chunk(b"lo"), Ok(None)));
    let (last, size, digest, head) = p.finish();
    assert_eq!(last, Some(b"hello".to_vec()));
    assert_eq!(size, 5);
    assert_eq!(
        digest.iter().map(|b| format!("{b:02x}")).collect::<String>(),
        "2cf24dba5fb0a30e26e83b2ac5b9e29e1b161e5c1fa7425e73043362938b9824"
    );
    assert_eq!(head, b"hello".to_vec());
}

#[test]
fn streamed_upload_flushes_parts_and_caps_size() {
    let mut p = UploadProgress::new();
    let big = vec![7u8; 8 * 1024 * 1024];
    match p.push_chunk(&big) {
        Ok(Some(part)) => assert_eq!(part.len(), 8 * 1024 * 1024),
        _ => panic!("expected a part"),
    }
    let rest = vec![1u8; 50 * 1024 * 1024 - 8 * 1024 * 1024];
    assert!(matches!(p.push_chunk(&rest), Ok(Some(_))));
    assert!(matches!(p.push_chunk(b"x"), Err(AppError::BadRequest(m)) if m == "file too large: max 52428800 bytes"));
    let (last, size, _, head) = p.finish();
    assert_eq!(last, None);
    assert_eq!(size, 50 * 1024 * 1024);
    assert_eq!(head.len(), 4 * 1024 * 1024);
    assert_eq!(upload_filename(None), "upload");
    assert_eq!(upload_content_type(None), "application/octet-stream");
    assert_eq!(upload_content_type(Some("text/csv")), "text/csv");
}

#[test]
fn json_uploads_decode_and_check() {
    assert!(matches!(decode_upload("aGVsbG8=", "text/plain"), Ok(d) if d == b"hello".to_vec()));
    assert!(matches!(decode_upload("***", "text/plain"), Err(AppError::BadRequest(m)) if m.starts_with("invalid base64: ")));
    assert!(matches!(decode_upload("aGVsbG8=", "image/png"), Err(AppError::BadRequest(m)) if m == "image magic-byte check failed"));
    assert!(check_json_placement(5, 0, None, &vec![], 0).is_ok());
    assert!(matches!(check_json_placement(5, 0, Some(ORG), &vec![], 0), Err(AppError::Unauthorized)));
    assert!(matches!(check_json_placement(5, 524_288_000, None, &vec![], 0), Err(AppError::BadRequest(_))));
    assert!(matches!(check_json_placement(5, 0, Some(ORG), &vec![ORG], 5_368_709_120), Err(AppError::BadRequest(m)) if m.starts_with("org quota exceeded")));
    assert_eq!(content_digest(b"abc"), "ba7816bf8f01cfea414140de5dae2223b00361a396177a9cb410ff61f20015ad");
    let r = new_file_record(F, U, "k".into(), "a".into(), "t".into(), 5, 9, "h".into(), None);
    assert!(r.tags.is_empty() && r.deleted_at.is_none() && r.sha256.as_deref() == Some("h"));
}

#[test]
fn import_skips_bad_files() {
    let f = |data: &str| ImportFile {
        filename: "a".into(),
        content_type: "image/png".into(),
        data_base64: data.into(),
        tags: vec![],
        description: None,
    };
    assert_eq!(import_data(&f("aGVsbG8="), 0), Some(b"hello".to_vec()));
    assert_eq!(import_data(&f("!!"), 0), None);
    assert_eq!(import_data(&f("aGVsbG8="), 524_288_000), None);
}

#[test]
fn versions_restore_the_snapshot() {
    let f0 = file(F, U, "a.txt", 1, &["t"]);
    let snap = snapshot_of(&f0, 11, 1, 99);
    assert_eq!(snap.version_no, 1);
    let f1 = replace_content(f0.clone_record(), "k2".into(), "text/csv".into(), 20, "h2".into());
    assert_eq!(f1.storage_key, "k2");
    let f2 = restore_version(f1, snap);
    assert_eq!(f2.storage_key, f0.storage_key);
    assert_eq!(f2.content_type, f0.content_type);
    assert_eq!(f2.size_bytes, f0.size_bytes);
    assert_eq!(f2.tags, f0.tags);
    assert_eq!(version_key(U, None, F), "u/01234567-89ab-cdef-0123-456789abcdef/00000000-0000-0000-0000-0000000000ff");
    assert_eq!(version_key(U, Some(F), 1), "o/00000000-0000-0000-0000-0000000000ff/00000000-0000-0000-0000-000000000001");
    assert!(matches!(decode_version("%%"), Err(AppError::BadRequest(m)) if m.starts_with("base64 decode: ")));
    assert!(matches!(decode_version("aGVsbG8="), Ok(d) if d == b"hello".to_vec()));
    assert!(check_version_quota(5, 0, Some(ORG), 0).is_ok());
    assert!(matches!(check_version_quota(5, 0, Some(ORG), 5_368_709_120), Err(AppError::BadRequest(_))));
}

#[test]
fn trash_restore_and_move() {
    let f0 = file(F, U, "a", 1, &[]);
    let t = trash_file(f0.clone_record(), 50);
    assert_eq!(t.deleted_at, Some(50));
    assert!(check_trashed_own(U, U, t.deleted_at).is_ok());
    assert!(matches!(check_trashed_own(U, U, None), Err(AppError::NotFound)));
    assert!(matches!(check_trashed_own(9, U, Some(1)), Err(AppError::NotFound)));
    let back = restore_file(t);
    assert_eq!(back.deleted_at, None);

    let mut f = f0.clone_record();
    f.storage_key = storage_key_for(U, None, F);
    let plan = plan_move(&f, U, Some(ORG), &vec![ORG], 0).unwrap_or_else(|_| panic!("move"));
    assert!(plan.key_changed);
    let moved = apply_move(f, Some(ORG), plan);
    assert_eq!(moved.storage_key, storage_key_for(U, Some(ORG), F));
    let plan2 = plan_move(&moved, U, None, &vec![ORG], 0).unwrap_or_else(|_| panic!("move back"));
    let back = apply_move(moved, None, plan2);
    assert_eq!(back.storage_key, storage_key_for(U, None, F));
    assert!(matches!(plan_move(&back, 9, None, &vec![], 0), Err(AppError::NotFound)));
    assert!(matches!(plan_move(&back, U, Some(ORG), &vec![], 0), Err(AppError::Unauthorized)));
}

#[test]
fn deleting_revokes_live_shares() {
    let shares = vec![
        ShareState { id: 1, file_id: F, revoked_at: None },
        ShareState { id: 2, file_id: F, revoked_at: Some(3) },
        ShareState { id: 3, file_id: 77, revoked_at: None },
    ];
    let out = revoke_shares_of(shares, F, 10);
    assert_eq!(out[0].revoked_at, Some(10));
    assert_eq!(out[1].revoked_at, Some(3));
    assert_eq!(out[2].revoked_at, None);
}

#[test]
fn presigned_uploads_stay_hidden_until_confirmed() {
    let p = pending_upload(F, U, "k".into(), "a".into(), "t".into(), 100, 7);
    assert_eq!(p.deleted_at, Some(7));
    let c = confirm_upload(p, 90);
    assert_eq!(c.deleted_at, None);
    assert_eq!(c.size_bytes, 90);
    let listed = starred_live(vec![trash_file(file(1, U, "a", 1, &[]), 2), file(2, U, "b", 1, &[])]);
    assert_eq!(listed.len(), 1);
    assert_eq!(listed[0].id, 2);
}

#[test]
fn comment_deletion_rights() {
    assert!(check_comment_delete(F, F, U, 9, U).is_ok());
    assert!(check_comment_delete(F, F, 9, U, U).is_ok());
    assert!(matches!(check_comment_delete(F, F, 9, 9, U), Err(AppError::NotFound)));
    assert!(matches!(check_comment_delete(F, 1, U, U, U), Err(AppError::NotFound)));
}

#[test]
fn stored_digest_is_checked() {
    let v = verify_file(Some("2cf24dba5fb0a30e26e83b2ac5b9e29e1b161e5c1fa7425e73043362938b9824".into()), b"hello");
    assert!(v.ok);
    let v = verify_file(Some("00".into()), b"hello");
    assert!(!v.ok);
    assert_eq!(v.computed, "2cf24dba5fb0a30e26e83b2ac5b9e29e1b161e5c1fa7425e73043362938b9824");
    assert!(!verify_file(None, b"hello").ok);
}

#[test]
fn thumbnails_for_images() {
    assert!(wants_thumbnail("image/png"));
    assert!(!wants_thumbnail("text/plain"));
    let t = make_thumbnail(&png_bytes()).expect("thumbnail");
    assert_eq!(&t[0..2], &[0xff, 0xd8]);
    let back = image::load_from_memory(&t).expect("decodes");
    assert_eq!((back.width(), back.height()), (256, 128));
    assert_eq!(make_thumbnail(b"not an image"), None);
}

#[test]
fn export_leaves_share_secrets_out() {
    let s = new_share(1, F, "raw", Some("pw"), None, 0);
    let e = exported_share(s);
    assert_eq!((e.id, e.file_id, e.expires_at, e.created_at, e.revoked_at, e.download_count), (1, F, Some(24 * 3_600_000_000), 0, None, 0));
}
