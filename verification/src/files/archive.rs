//! The zip download: the request limits, and the archive built with the zip
//! crate, one deflated entry per file under its de-duplicated name.
use vstd::prelude::*;

use std::io::Write as _;

use super::zip::{name_views, zip_entry_name, zip_entry_names};
use crate::crypto::utf8;
use crate::error::{bad_request, is_other, lit, AppError};

verus! {

/// A zip archive being written into memory: the zip crate's
/// `ZipWriter<Cursor<Vec<u8>>>`, held privately and seen only through the
/// entries written into it (`zip_entries`).
#[verifier::external_body]
pub struct ZipBuilder {
    w: zip::ZipWriter<std::io::Cursor<Vec<u8>>>,
}

/// The entries written so far: name, content and Unix mode, in order.
pub uninterp spec fn zip_entries(z: ZipBuilder) -> Seq<(Seq<char>, Seq<u8>, u32)>;

/// The bytes that `ZipWriter::finish` leaves in the in-memory buffer of a
/// writer into which these entries were written, each by `start_file`
/// (deflated at the default level, with its Unix mode and, the crate's `time`
/// feature being off, the fixed timestamp of 1980-01-01) and `write_all` of
/// its content; `None` where `finish` refuses.
pub uninterp spec fn zip_archive(entries: Seq<(Seq<char>, Seq<u8>, u32)>) -> Option<Seq<u8>>;

/// `ZipWriter::new` over an empty buffer: no entries.
#[verifier::external_body]
fn zip_new() -> (z: ZipBuilder)
    ensures
        zip_entries(z) == Seq::<(Seq<char>, Seq<u8>, u32)>::empty(),
{
    ZipBuilder { w: zip::ZipWriter::new(std::io::Cursor::new(Vec::new())) }
}

/// The largest entry content for which `zip_add` is promised to succeed: far
/// enough under the 4 GiB (`ZIP64_BYTES_THR`) at which the crate refuses an
/// entry without its large-file option that the deflated size stays under it
/// too.
pub const ZIP_ENTRY_MAX: usize = 0x8000_0000;

/// `ZipWriter::start_file` (deflated, with the given Unix mode) and then
/// `write_all` of the content; on success the writer comes back with the
/// entry appended. The crate refuses a name already used and content (of
/// this entry, or of the one before, whose sizes are settled when the next
/// starts) over 4 GiB; it then answers its error text, and the writer, which
/// may hold part of the entry, is dropped. A name over 65535 bytes of UTF-8
/// would make the crate panic (its length is stored in 16 bits), so it is not
/// admitted.
#[verifier::external_body]
fn zip_add(z: ZipBuilder, name: &str, data: &[u8], unix_mode: u32) -> (r: Result<ZipBuilder, String>)
    requires
        utf8(name@).len() <= 65535,
    ensures
        r matches Ok(z2) ==> zip_entries(z2) == zip_entries(z).push((name@, data@, unix_mode)),
        ({
            &&& data@.len() <= ZIP_ENTRY_MAX
            &&& forall|k: int| 0 <= k < zip_entries(z).len() ==> #[trigger] zip_entries(z)[k].0 != name@
            &&& forall|k: int| 0 <= k < zip_entries(z).len() ==> #[trigger] zip_entries(z)[k].1.len() <= ZIP_ENTRY_MAX
        }) ==> r is Ok,
{
    let mut z = z;
    let opts = zip::write::SimpleFileOptions::default()
        .compression_method(zip::CompressionMethod::Deflated)
        .unix_permissions(unix_mode);
    match z.w.start_file(name, opts) {
        Ok(()) => {},
        Err(e) => return Err(e.to_string()),
    }
    match z.w.write_all(data) {
        Ok(()) => Ok(z),
        Err(e) => Err(e.to_string()),
    }
}

/// `ZipWriter::finish`: the archive's bytes (see `zip_archive`), or the
/// crate's error text.
#[verifier::external_body]
fn zip_finish(z: ZipBuilder) -> (r: Result<Vec<u8>, String>)
    ensures
        r is Ok <==> zip_archive(zip_entries(z)) is Some,
        r matches Ok(b) ==> zip_archive(zip_entries(z)) == Some(b@),
{
    match z.w.finish() {
        Ok(c) => Ok(c.into_inner()),
        Err(e) => Err(e.to_string()),
    }
}

/// `POST /files/download-zip`: the files to pack.
pub struct ZipDownloadInput {
    pub ids: Vec<u128>,
}

/// Files per zip download at most.
pub const MAX_ZIP_FILES: usize = 200;

/// The Unix mode of every entry (`rw-r--r--`).
pub const ENTRY_MODE: u32 = 0o644;

/// A zip download names 1 to 200 files (else 400).
pub fn check_zip_request(n_ids: usize) -> (r: Result<(), AppError>)
    ensures
        (1 <= n_ids <= MAX_ZIP_FILES) ==> r is Ok,
        !(1 <= n_ids <= MAX_ZIP_FILES) ==> bad_request(r, "ids required, max 200"@),
{
    if n_ids == 0 || n_ids > MAX_ZIP_FILES {
        return Err(AppError::BadRequest(lit("ids required, max 200")));
    }
    Ok(())
}

/// A zip download of which the user reaches none of the files is a 404.
pub fn check_some_reachable(n_reachable: usize) -> (r: Result<(), AppError>)
    ensures
        n_reachable > 0 ==> r is Ok,
        n_reachable == 0 ==> r == Err::<(), AppError>(AppError::NotFound),
{
    if n_reachable == 0 {
        return Err(AppError::NotFound);
    }
    Ok(())
}

/// The names of the files.
pub open spec fn item_names(items: Seq<(String, Vec<u8>)>) -> Seq<String> {
    items.map_values(|it: (String, Vec<u8>)| it.0)
}

/// The entries of the archive of `items`: each file's content under its
/// de-duplicated name (see `zip_entry_name`) with mode `ENTRY_MODE`, in order.
pub open spec fn archive_entries(items: Seq<(String, Vec<u8>)>) -> Seq<(Seq<char>, Seq<u8>, u32)> {
    Seq::new(items.len(), |i: int| (zip_entry_name(name_views(item_names(items)), i), items[i].1@, ENTRY_MODE))
}

/// The entry name of the `i`-th of `items`.
pub open spec fn entry_name(items: Seq<(String, Vec<u8>)>, i: int) -> Seq<char> {
    zip_entry_name(name_views(item_names(items)), i)
}

/// No two files get the same entry name (de-duplication can still collide,
/// as with files named `a__1`, `a` and `a`).
pub open spec fn entry_names_distinct(items: Seq<(String, Vec<u8>)>) -> bool {
    forall|i: int, j: int| 0 <= i < j < items.len() ==> entry_name(items, i) != entry_name(items, j)
}

/// Writes every file into a new archive under its de-duplicated name; a
/// refusal of the zip crate is a server error. It succeeds whenever the entry
/// names are distinct and no file holds over `ZIP_ENTRY_MAX` bytes.
pub fn zip_items(items: &Vec<(String, Vec<u8>)>) -> (r: Result<ZipBuilder, AppError>)
    requires
        items@.len() < u64::MAX,
        forall|i: int| 0 <= i < items@.len() ==> utf8(#[trigger] entry_name(items@, i)).len() <= 65535,
    ensures
        r matches Ok(z) ==> zip_entries(z) == archive_entries(items@),
        r is Err ==> is_other(r),
        entry_names_distinct(items@) && (forall|i: int| 0 <= i < items@.len() ==> (#[trigger] items@[i]).1@.len()
            <= ZIP_ENTRY_MAX) ==> r is Ok,
{
    let n = items.len();
    let mut names: Vec<String> = Vec::new();
    for i in 0..n
        invariant
            n == items@.len(),
            names@ == item_names(items@).subrange(0, i as int),
    {
        names.push(items[i].0.clone());
        assert(item_names(items@).subrange(0, i + 1) == item_names(items@).subrange(0, i as int).push(
            items@[i as int].0,
        ));
    }
    assert(names@ == item_names(items@));
    let entry_names = zip_entry_names(&names);
    let mut z = zip_new();
    for i in 0..n
        invariant
            n == items@.len(),
            names@ == item_names(items@),
            entry_names@.len() == n,
            forall|k: int| 0 <= k < n ==> #[trigger] entry_names@[k]@ == zip_entry_name(name_views(names@), k),
            forall|k: int| 0 <= k < items@.len() ==> utf8(#[trigger] entry_name(items@, k)).len() <= 65535,
            zip_entries(z) == archive_entries(items@).subrange(0, i as int),
    {
        assert(entry_names@[i as int]@ == entry_name(items@, i as int));
        proof {
            if entry_names_distinct(items@) {
                assert forall|k: int| 0 <= k < zip_entries(z).len() implies #[trigger] zip_entries(z)[k].0
                    != entry_names@[i as int]@ by {
                    assert(zip_entries(z)[k] == archive_entries(items@)[k]);
                    assert(entry_name(items@, k) != entry_name(items@, i as int));
                }
            }
            assert forall|k: int| 0 <= k < zip_entries(z).len() implies #[trigger] zip_entries(z)[k].1
                == items@[k].1@ by {
                assert(zip_entries(z)[k] == archive_entries(items@)[k]);
            }
        }
        z = match zip_add(z, entry_names[i].as_str(), items[i].1.as_slice(), ENTRY_MODE) {
            Ok(z2) => z2,
            Err(e) => {
                let mut m = lit("zip: ");
                m.append(e.as_str());
                return Err(AppError::Other(m));
            },
        };
        assert(archive_entries(items@).subrange(0, i + 1) == archive_entries(items@).subrange(0, i as int).push(
            (entry_names@[i as int]@, items@[i as int].1@, ENTRY_MODE),
        ));
    }
    assert(archive_entries(items@).subrange(0, n as int) == archive_entries(items@));
    Ok(z)
}

/// Closes the archive and returns its bytes, the archive of the entries
/// written (see `zip_archive`); a refusal of the zip crate is a server error.
pub fn finish_zip(z: ZipBuilder) -> (r: Result<Vec<u8>, AppError>)
    ensures
        r is Ok <==> zip_archive(zip_entries(z)) is Some,
        r matches Ok(b) ==> zip_archive(zip_entries(z)) == Some(b@),
        r is Err ==> is_other(r),
{
    match zip_finish(z) {
        Ok(b) => Ok(b),
        Err(e) => {
            let mut m = lit("zip finish: ");
            m.append(e.as_str());
            Err(AppError::Other(m))
        },
    }
}

} // verus!
