//! The file list: page size, tag and name filters, and the cursor of the next
//! page.
use vstd::prelude::*;

use super::{FileDto, FileRecord};
use super::tags::{has_tag, tag_views};
use crate::text::{chars_of, contains_seq, has_infix};
use crate::validation::{lowercase, to_lowercase};

verus! {

/// Rows per page: 50 unless asked, at most 200.
pub open spec fn list_limit_spec(limit: Option<u64>) -> u64 {
    let l = match limit {
        Some(l) => l,
        None => 50,
    };
    if l < 200 {
        l
    } else {
        200
    }
}

/// `q.limit.unwrap_or(50).min(200)`.
pub fn list_limit(limit: Option<u64>) -> (r: u64)
    ensures
        r == list_limit_spec(limit),
{
    let l = match limit {
        Some(l) => l,
        None => 50,
    };
    if l < 200 {
        l
    } else {
        200
    }
}

/// Rows carrying the tag `tag`.
pub open spec fn tagged(rows: Seq<FileRecord>, tag: Seq<char>) -> Seq<FileRecord> {
    rows.filter(|r: FileRecord| tag_views(r.tags@).contains(tag))
}

/// Rows whose lower-cased name holds the lower-cased `needle`.
pub open spec fn named(rows: Seq<FileRecord>, needle: Seq<char>) -> Seq<FileRecord> {
    rows.filter(|r: FileRecord| has_infix(lowercase(r.filename@), lowercase(needle)))
}

/// Keeps the rows that carry `tag`.
pub fn filter_by_tag(rows: Vec<FileRecord>, tag: &String) -> (r: Vec<FileRecord>)
    ensures
        r@ == tagged(rows@, tag@),
{
    let ghost orig = rows@;
    let mut rows = rows;
    let mut out: Vec<FileRecord> = Vec::new();
    let n = rows.len();
    let mut i: usize = 0;
    while i < n
        invariant
            n == orig.len(),
            i <= n,
            rows@ == orig.subrange(i as int, n as int),
            out@ == tagged(orig.subrange(0, i as int), tag@),
        decreases n - i,
    {
        let r = rows.remove(0);
        assert(orig.subrange(0, i + 1).drop_last() == orig.subrange(0, i as int));
        assert(orig.subrange(0, i + 1).last() == r);
        assert(rows@ == orig.subrange(i + 1, n as int));
        proof {
            reveal_with_fuel(Seq::<_>::filter, 1);
        }
        if has_tag(&r.tags, tag) {
            out.push(r);
        }
        i = i + 1;
    }
    assert(orig.subrange(0, n as int) == orig);
    out
}

/// Keeps the rows whose name holds `needle`, ignoring case.
pub fn filter_by_name(rows: Vec<FileRecord>, needle: &str) -> (r: Vec<FileRecord>)
    ensures
        r@ == named(rows@, needle@),
{
    let n_low = to_lowercase(needle);
    let n_chars = chars_of(n_low.as_str());
    let ghost orig = rows@;
    let mut rows = rows;
    let mut out: Vec<FileRecord> = Vec::new();
    let n = rows.len();
    let mut i: usize = 0;
    while i < n
        invariant
            n == orig.len(),
            i <= n,
            n_chars@ == lowercase(needle@),
            rows@ == orig.subrange(i as int, n as int),
            out@ == named(orig.subrange(0, i as int), needle@),
        decreases n - i,
    {
        let r = rows.remove(0);
        assert(orig.subrange(0, i + 1).drop_last() == orig.subrange(0, i as int));
        assert(orig.subrange(0, i + 1).last() == r);
        assert(rows@ == orig.subrange(i + 1, n as int));
        proof {
            reveal_with_fuel(Seq::<_>::filter, 1);
        }
        let low = to_lowercase(r.filename.as_str());
        let low_chars = chars_of(low.as_str());
        if contains_seq(&low_chars, &n_chars) {
            out.push(r);
        }
        i = i + 1;
    }
    assert(orig.subrange(0, n as int) == orig);
    out
}

/// The query of `GET /files`: page size, cursor (list files created before
/// it), tag and name filters.
pub struct ListQuery {
    pub limit: Option<u64>,
    pub cursor: Option<i64>,
    pub tag: Option<String>,
    pub q: Option<String>,
}

/// A page of files and the cursor for the next one.
pub struct FileList {
    pub items: Vec<FileDto>,
    pub next_cursor: Option<i64>,
}

/// The listed view of a stored file (see `FileDto::from_record`).
pub open spec fn dto_of(m: FileRecord) -> FileDto {
    FileDto {
        id: m.id,
        filename: m.filename,
        content_type: m.content_type,
        size_bytes: m.size_bytes,
        created_at: m.created_at,
        sha256: m.sha256,
        tags: m.tags,
        org_id: m.org_id,
        description: m.description,
    }
}

/// The listed views of the files, in order.
pub fn dtos_of(rows: Vec<FileRecord>) -> (r: Vec<FileDto>)
    ensures
        r@.len() == rows@.len(),
        forall|i: int| 0 <= i < r@.len() ==> #[trigger] r@[i] == dto_of(rows@[i]),
{
    let ghost orig = rows@;
    let mut rows = rows;
    let mut out: Vec<FileDto> = Vec::new();
    let n = rows.len();
    let mut i: usize = 0;
    while i < n
        invariant
            n == orig.len(),
            i <= n,
            rows@ == orig.subrange(i as int, n as int),
            out@.len() == i,
            forall|j: int| 0 <= j < i ==> #[trigger] out@[j] == dto_of(orig[j]),
        decreases n - i,
    {
        let r = rows.remove(0);
        assert(r == orig[i as int]);
        assert(rows@ == orig.subrange(i + 1, n as int));
        out.push(FileDto::from_record(r));
        i = i + 1;
    }
    out
}

/// Cuts a page of `limit` files from `rows` (fetched as `limit + 1` rows,
/// then filtered): when more than `limit` are left, the last is dropped and
/// the next page starts before the page's last file.
pub fn paginate(rows: Vec<FileRecord>, limit: u64) -> (r: FileList)
    ensures
        r.items@.len() == (if rows@.len() > limit { rows@.len() - 1 } else { rows@.len() as int }),
        forall|i: int| 0 <= i < r.items@.len() ==> #[trigger] r.items@[i] == dto_of(rows@[i]),
        r.next_cursor == (if rows@.len() > limit && rows@.len() >= 2 {
            Some(rows@[rows@.len() - 2].created_at)
        } else {
            None::<i64>
        }),
{
    let ghost orig = rows@;
    let mut rows = rows;
    let has_more = rows.len() as u64 > limit;
    if has_more {
        rows.pop();
    }
    let next_cursor = if has_more && rows.len() > 0 {
        Some(rows[rows.len() - 1].created_at)
    } else {
        None
    };
    let items = dtos_of(rows);
    FileList { items, next_cursor }
}

/// `p` stands somewhere in `s` as a block of consecutive characters.
pub open spec fn holds_block(s: Seq<char>, p: Seq<char>) -> bool {
    exists|k: int| 0 <= k && k + p.len() <= s.len() && #[trigger] s.subrange(k, k + p.len()) == p
}

/// The name filter keeps a row exactly when the needle, lower-cased, stands
/// anywhere in its lower-cased name (not only at the start), and keeps
/// nothing else.
pub proof fn lemma_name_filter_keeps_infix_matches(rows: Seq<FileRecord>, needle: Seq<char>)
    ensures
        forall|i: int|
            0 <= i < rows.len() ==> (named(rows, needle).contains(#[trigger] rows[i]) <==> holds_block(
                lowercase(rows[i].filename@),
                lowercase(needle),
            )),
        forall|j: int|
            0 <= j < named(rows, needle).len() ==> holds_block(
                lowercase((#[trigger] named(rows, needle)[j]).filename@),
                lowercase(needle),
            ),
{
    let pred = |r: FileRecord| has_infix(lowercase(r.filename@), lowercase(needle));
    broadcast use Seq::lemma_filter_pred, Seq::lemma_filter_contains;
    assert(named(rows, needle) == rows.filter(pred));
    assert forall|s: Seq<char>, p: Seq<char>| #[trigger] holds_block(s, p) <==> has_infix(s, p) by {
        if holds_block(s, p) {
            let k = choose|k: int| 0 <= k && k + p.len() <= s.len() && #[trigger] s.subrange(k, k + p.len()) == p;
            assert(crate::text::occurs_at(s, p, k));
        }
        if has_infix(s, p) {
            let k = choose|k: int| crate::text::occurs_at(s, p, k);
            assert(s.subrange(k, k + p.len()) == p);
        }
    }
    assert forall|i: int| 0 <= i < rows.len() implies (named(rows, needle).contains(#[trigger] rows[i])
        <==> holds_block(lowercase(rows[i].filename@), lowercase(needle))) by {
        if named(rows, needle).contains(rows[i]) {
            let j = choose|j: int| 0 <= j < named(rows, needle).len() && named(rows, needle)[j] == rows[i];
            assert(pred(rows.filter(pred)[j]));
        }
        if holds_block(lowercase(rows[i].filename@), lowercase(needle)) {
            assert(pred(rows[i]));
        }
    }
    assert forall|j: int| 0 <= j < named(rows, needle).len() implies holds_block(
        lowercase((#[trigger] named(rows, needle)[j]).filename@),
        lowercase(needle),
    ) by {
        assert(pred(rows.filter(pred)[j]));
    }
}

/// The page size: 50 unless asked, what was asked up to 200, never more
/// than 200.
pub proof fn lemma_list_limit_default_and_cap(l: u64)
    ensures
        list_limit_spec(None) == 50,
        l <= 200 ==> list_limit_spec(Some(l)) == l,
        l > 200 ==> list_limit_spec(Some(l)) == 200,
        list_limit_spec(Some(l)) <= 200,
{
}

/// The tag filter keeps a row exactly when one of its tags is `tag`, and
/// keeps nothing else.
pub proof fn lemma_tag_filter_keeps_tagged(rows: Seq<FileRecord>, tag: Seq<char>)
    ensures
        forall|i: int|
            0 <= i < rows.len() ==> (tagged(rows, tag).contains(#[trigger] rows[i]) <==> exists|k: int|
                0 <= k < rows[i].tags@.len() && #[trigger] rows[i].tags@[k]@ == tag),
        forall|j: int|
            0 <= j < tagged(rows, tag).len() ==> exists|k: int|
                0 <= k < (#[trigger] tagged(rows, tag)[j]).tags@.len() && tagged(rows, tag)[j].tags@[k]@ == tag,
{
    let pred = |r: FileRecord| tag_views(r.tags@).contains(tag);
    broadcast use Seq::lemma_filter_pred, Seq::lemma_filter_contains;
    assert(tagged(rows, tag) == rows.filter(pred));
    assert forall|r: FileRecord| #[trigger] pred(r) <==> exists|k: int| 0 <= k < r.tags@.len() && #[trigger] r.tags@[k]@ == tag by {
        if pred(r) {
            let k = choose|k: int| 0 <= k < tag_views(r.tags@).len() && tag_views(r.tags@)[k] == tag;
            assert(r.tags@[k]@ == tag_views(r.tags@)[k]);
        }
        if exists|k: int| 0 <= k < r.tags@.len() && #[trigger] r.tags@[k]@ == tag {
            let k = choose|k: int| 0 <= k < r.tags@.len() && #[trigger] r.tags@[k]@ == tag;
            assert(tag_views(r.tags@)[k] == r.tags@[k]@);
        }
    }
    assert forall|i: int| 0 <= i < rows.len() implies (tagged(rows, tag).contains(#[trigger] rows[i]) <==> pred(rows[i])) by {
        if tagged(rows, tag).contains(rows[i]) {
            let j = choose|j: int| 0 <= j < tagged(rows, tag).len() && tagged(rows, tag)[j] == rows[i];
            assert(pred(rows.filter(pred)[j]));
        }
    }
    assert forall|j: int| 0 <= j < tagged(rows, tag).len() implies pred(#[trigger] tagged(rows, tag)[j]) by {
        assert(pred(rows.filter(pred)[j]));
    }
}

} // verus!
