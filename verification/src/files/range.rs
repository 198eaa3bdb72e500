//! HTTP `Range: bytes=start-end` requests and the headers of a download.
use vstd::prelude::*;

use crate::auth::{find_char, first_index, slice_chars};
use crate::text::{chars_of, decimal, has_prefix, parse_u64, parse_u64_spec, push_u64, starts_with};

verus! {

/// The characters `bytes=`.
pub open spec fn bytes_eq_prefix() -> Seq<char> {
    seq!['b', 'y', 't', 'e', 's', '=']
}

/// The range in `raw` when it has the form `bytes=<start>-<end>` or
/// `bytes=<start>-`, together with the end that an open form stands for.
pub open spec fn range_parts(raw: Seq<char>) -> Option<(u64, Option<u64>, bool)> {
    if !has_prefix(raw, bytes_eq_prefix()) {
        None
    } else {
        let rest = raw.subrange(6, raw.len() as int);
        match first_index(rest, '-') {
            None => None,
            Some(k) => {
                let a = rest.subrange(0, k);
                let b = rest.subrange(k + 1, rest.len() as int);
                match parse_u64_spec(a) {
                    None => None,
                    Some(start) => if b.len() == 0 {
                        Some((start, None, true))
                    } else {
                        Some((start, parse_u64_spec(b), false))
                    },
                }
            },
        }
    }
}

/// The inclusive byte range that `parse_range` reads from `raw` for an object
/// of `total` bytes: `bytes=a-b` gives `(a, b)`, `bytes=a-` gives
/// `(a, total - 1)`; anything else, a range with `a > b` or `b >= total`,
/// or an open range on an empty object, gives `None`.
pub open spec fn parse_range_spec(raw: Seq<char>, total: u64) -> Option<(u64, u64)> {
    match range_parts(raw) {
        None => None,
        Some((start, end_opt, open)) => {
            let end: Option<u64> = if open {
                if total == 0 {
                    None
                } else {
                    Some((total - 1) as u64)
                }
            } else {
                end_opt
            };
            match end {
                None => None,
                Some(end) => if start > end || end >= total {
                    None
                } else {
                    Some((start, end))
                },
            }
        },
    }
}

/// Parses an HTTP Range header `bytes=start-end` (or `bytes=start-`) into
/// inclusive byte offsets within an object of `total` bytes; `None` for
/// unsupported or unsatisfiable forms (an empty object has no satisfiable
/// range).
pub fn parse_range(raw: &str, total: u64) -> (r: Option<(u64, u64)>)
    ensures
        r == parse_range_spec(raw@, total),
        r matches Some((s, e)) ==> s <= e < total,
{
    let cs = chars_of(raw);
    let p = chars_of("bytes=");
    proof {
        reveal_strlit("bytes=");
    }
    assert(p@ == bytes_eq_prefix());
    if !starts_with(&cs, &p) {
        return None;
    }
    let rest = slice_chars(&cs, 6, cs.len());
    let k = match find_char(&rest, '-') {
        None => {
            return None;
        },
        Some(k) => k,
    };
    proof {
        crate::auth::lemma_first_index(rest@, '-', k as int);
    }
    let a = slice_chars(&rest, 0, k);
    let b = slice_chars(&rest, k + 1, rest.len());
    let start = match parse_u64(&a) {
        None => {
            return None;
        },
        Some(s) => s,
    };
    let end = if b.len() == 0 {
        if total == 0 {
            return None;
        }
        total - 1
    } else {
        match parse_u64(&b) {
            None => {
                return None;
            },
            Some(e) => e,
        }
    };
    if start > end || end >= total {
        return None;
    }
    Some((start, end))
}

/// `Content-Range: bytes {start}-{end}/{total}`.
pub open spec fn content_range_spec(start: u64, end: u64, total: u64) -> Seq<char> {
    seq!['b', 'y', 't', 'e', 's', ' '] + decimal(start as nat) + seq!['-'] + decimal(end as nat) + seq!['/']
        + decimal(total as nat)
}

/// The `Content-Range` value of a partial answer.
pub fn content_range(start: u64, end: u64, total: u64) -> (r: String)
    ensures
        r@ == content_range_spec(start, end, total),
{
    let mut s = crate::error::lit("bytes ");
    proof {
        reveal_strlit("bytes ");
    }
    push_u64(&mut s, start);
    crate::text::push_char(&mut s, '-');
    push_u64(&mut s, end);
    crate::text::push_char(&mut s, '/');
    push_u64(&mut s, total);
    s
}

/// `Content-Disposition: {inline|attachment}; filename="{name}"`.
pub open spec fn content_disposition_spec(inline: bool, filename: Seq<char>) -> Seq<char> {
    (if inline {
        "inline"@
    } else {
        "attachment"@
    }) + "; filename=\""@ + filename + seq!['"']
}

/// The `Content-Disposition` value of a download: inline only when the query
/// asked for `inline=true`.
pub fn content_disposition(inline: Option<bool>, filename: &str) -> (r: String)
    ensures
        r@ == content_disposition_spec(inline == Some(true), filename@),
{
    let mut s = if inline == Some(true) {
        crate::error::lit("inline")
    } else {
        crate::error::lit("attachment")
    };
    s.append("; filename=\"");
    s.append(filename);
    crate::text::push_char(&mut s, '"');
    s
}

/// `bytes=<a>-<b>` and `bytes=<a>-` with the numbers written in decimal:
/// within the object they give exactly those offsets (the open form up to
/// the last byte); an end at or past the object's size, or a start after the
/// end, gives none.
pub proof fn lemma_decimal_ranges(a: u64, b: u64, total: u64)
    ensures
        a <= b < total ==> parse_range_spec(bytes_eq_prefix() + decimal(a as nat) + seq!['-'] + decimal(b as nat), total)
            == Some((a, b)),
        (b >= total || a > b) ==> parse_range_spec(bytes_eq_prefix() + decimal(a as nat) + seq!['-'] + decimal(b as nat), total)
            is None,
        a < total ==> parse_range_spec(bytes_eq_prefix() + decimal(a as nat) + seq!['-'], total) == Some((a, (total - 1) as u64)),
        a >= total ==> parse_range_spec(bytes_eq_prefix() + decimal(a as nat) + seq!['-'], total) is None,
{
    crate::auth::lemma_decimal_digits(a as nat);
    crate::auth::lemma_decimal_digits(b as nat);
    let da = decimal(a as nat);
    let db = decimal(b as nat);
    let p = bytes_eq_prefix();
    let closed = p + da + seq!['-'] + db;
    let open = p + da + seq!['-'];
    assert(crate::text::is_digit(da[0]));
    assert(has_prefix(closed, p)) by {
        assert(closed.subrange(0, 6) =~= p);
    }
    assert(has_prefix(open, p)) by {
        assert(open.subrange(0, 6) =~= p);
    }
    let rc = closed.subrange(6, closed.len() as int);
    let ro = open.subrange(6, open.len() as int);
    assert(rc =~= da + seq!['-'] + db);
    assert(ro =~= da + seq!['-']);
    assert forall|j: int| 0 <= j < da.len() implies rc[j] != '-' && ro[j] != '-' by {
        assert(rc[j] == da[j]);
        assert(ro[j] == da[j]);
        assert(crate::text::is_digit(da[j]));
    }
    crate::auth::lemma_first_index(rc, '-', da.len() as int);
    crate::auth::lemma_first_index(ro, '-', da.len() as int);
    assert(rc.subrange(0, da.len() as int) =~= da);
    assert(rc.subrange(da.len() + 1int, rc.len() as int) =~= db);
    assert(ro.subrange(0, da.len() as int) =~= da);
    assert(ro.subrange(da.len() + 1int, ro.len() as int) =~= Seq::<char>::empty());
    assert(parse_u64_spec(da) == Some(a));
    assert(parse_u64_spec(db) == Some(b));
}

/// A download is shown inline exactly when asked for (`inline=true`), else
/// it is an attachment; either way the file name is quoted at the end.
pub proof fn lemma_disposition_rule(filename: Seq<char>)
    ensures
        content_disposition_spec(true, filename).subrange(0, 6) == "inline"@,
        content_disposition_spec(false, filename).subrange(0, 10) == "attachment"@,
        content_disposition_spec(true, filename).last() == '"',
        content_disposition_spec(false, filename).last() == '"',
        content_range_spec(0, 9, 100) == "bytes 0-9/100"@,
{
    reveal_strlit("inline");
    reveal_strlit("attachment");
    reveal_strlit("; filename=\"");
    reveal_strlit("bytes 0-9/100");
    let a = "inline"@ + "; filename=\""@ + filename + seq!['"'];
    assert(a.subrange(0, 6) =~= "inline"@);
    let b = "attachment"@ + "; filename=\""@ + filename + seq!['"'];
    assert(b.subrange(0, 10) =~= "attachment"@);
    assert(decimal(0) == seq!['0']);
    assert(decimal(9) == seq!['9']);
    assert(decimal(1) == seq!['1']);
    assert(decimal(10) =~= seq!['1', '0']);
    assert(decimal(100) =~= seq!['1', '0', '0']);
    assert(content_range_spec(0, 9, 100) =~= "bytes 0-9/100"@);
}

} // verus!
