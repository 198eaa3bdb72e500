//! Downloads: the headers of `HEAD` and `GET` on a file, whole or by range.
use vstd::prelude::*;

pub use super::range::{content_disposition, content_range, parse_range};

use super::range::{content_disposition_spec, content_range_spec};
use crate::error::lit;
use crate::text::{decimal, push_char, push_i64, push_u64, signed_decimal};

verus! {

/// The views of (name, value) pairs.
pub open spec fn header_views(v: Seq<(String, String)>) -> Seq<(Seq<char>, Seq<char>)> {
    v.map_values(|p: (String, String)| (p.0@, p.1@))
}

/// The digest in quotes, empty quotes when there is none.
pub open spec fn etag_spec(sha256: Option<Seq<char>>) -> Seq<char> {
    seq!['"'] + (match sha256 {
        Some(s) => s,
        None => Seq::empty(),
    }) + seq!['"']
}

/// The headers of `HEAD /files/{id}`: type, size, byte ranges accepted, and
/// the stored SHA-256 as entity tag.
pub fn head_headers(content_type: &str, size_bytes: i64, sha256: Option<&str>) -> (r: Vec<(String, String)>)
    ensures
        header_views(r@) == seq![
            ("content-type"@, content_type@),
            ("content-length"@, signed_decimal(size_bytes as int)),
            ("accept-ranges"@, "bytes"@),
            ("etag"@, etag_spec(match sha256 {
                Some(s) => Some(s@),
                None => None,
            })),
        ],
{
    let mut len = String::new();
    push_i64(&mut len, size_bytes);
    let mut tag = String::new();
    push_char(&mut tag, '"');
    match sha256 {
        Some(s) => tag.append(s),
        None => {},
    }
    push_char(&mut tag, '"');
    assert(tag@ =~= etag_spec(match sha256 {
        Some(s) => Some(s@),
        None => None,
    }));
    assert(len@ =~= signed_decimal(size_bytes as int));
    let mut v: Vec<(String, String)> = Vec::new();
    v.push((lit("content-type"), lit(content_type)));
    v.push((lit("content-length"), len));
    v.push((lit("accept-ranges"), lit("bytes")));
    v.push((lit("etag"), tag));
    assert(header_views(v@) =~= seq![
        ("content-type"@, content_type@),
        ("content-length"@, signed_decimal(size_bytes as int)),
        ("accept-ranges"@, "bytes"@),
        ("etag"@, etag_spec(match sha256 {
            Some(s) => Some(s@),
            None => None,
        })),
    ]);
    v
}

/// The status and headers of `GET /files/{id}`: 206 with a `Content-Range`
/// when a satisfiable range `(start, end)` was asked of `total` bytes, else
/// 200; `length` is the number of bytes sent.
pub fn download_headers(
    content_type: &str,
    inline: Option<bool>,
    filename: &str,
    length: u64,
    range: Option<(u64, u64)>,
    total: u64,
) -> (r: (u16, Vec<(String, String)>))
    ensures
        r.0 == (if range is Some { 206u16 } else { 200u16 }),
        header_views(r.1@) == seq![
            ("content-type"@, content_type@),
            ("content-disposition"@, content_disposition_spec(inline == Some(true), filename@)),
            ("content-length"@, decimal(length as nat)),
            ("accept-ranges"@, "bytes"@),
        ] + match range {
            Some((s, e)) => seq![("content-range"@, content_range_spec(s, e, total))],
            None => Seq::empty(),
        },
{
    let mut len = String::new();
    push_u64(&mut len, length);
    let mut v: Vec<(String, String)> = Vec::new();
    v.push((lit("content-type"), lit(content_type)));
    v.push((lit("content-disposition"), content_disposition(inline, filename)));
    v.push((lit("content-length"), len));
    v.push((lit("accept-ranges"), lit("bytes")));
    let ghost base = header_views(v@);
    match range {
        Some((s, e)) => {
            v.push((lit("content-range"), content_range(s, e, total)));
            assert(header_views(v@) =~= base + seq![("content-range"@, content_range_spec(s, e, total))]);
            (206, v)
        },
        None => {
            assert(header_views(v@) =~= base + Seq::<(Seq<char>, Seq<char>)>::empty());
            (200, v)
        },
    }
}

/// The entity tag is the stored digest between double quotes (empty quotes
/// without one).
pub proof fn lemma_etag_quotes(sha: Seq<char>)
    ensures
        etag_spec(Some(sha)) == seq!['"'] + sha + seq!['"'],
        etag_spec(None) == seq!['"', '"'],
        etag_spec(Some(sha)).len() == sha.len() + 2,
{
    assert(seq!['"'] + Seq::<char>::empty() + seq!['"'] =~= seq!['"', '"']);
}

} // verus!
