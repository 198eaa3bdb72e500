//! Text forms that come from outside crates: JSON string literals
//! (serde_json) and RFC 3339 times (chrono). Instants are microseconds since
//! the Unix epoch.
use vstd::prelude::*;

verus! {

/// A lower-case hexadecimal digit.
pub open spec fn hex_lower_digit(d: int) -> char {
    if d < 10 {
        (48 + d) as char
    } else {
        (87 + d) as char
    }
}

/// How serde_json writes one character inside a string literal (its
/// `ESCAPE` table): `"` and `\` behind a backslash; backspace, tab, line
/// feed, form feed and carriage return as `\b`, `\t`, `\n`, `\f`, `\r`;
/// the other characters below U+0020 as `\u00` and two lower-case hex
/// digits; every other character as it is.
pub open spec fn json_escape_char(c: char) -> Seq<char> {
    let n = c as int;
    if c == '"' {
        seq!['\\', '"']
    } else if c == '\\' {
        seq!['\\', '\\']
    } else if n == 8 {
        seq!['\\', 'b']
    } else if n == 9 {
        seq!['\\', 't']
    } else if n == 10 {
        seq!['\\', 'n']
    } else if n == 12 {
        seq!['\\', 'f']
    } else if n == 13 {
        seq!['\\', 'r']
    } else if n < 32 {
        seq!['\\', 'u', '0', '0', hex_lower_digit(n / 16), hex_lower_digit(n % 16)]
    } else {
        seq![c]
    }
}

/// The characters of `s`, each as `json_escape_char` writes it.
pub open spec fn json_escaped(s: Seq<char>) -> Seq<char>
    decreases s.len(),
{
    if s.len() == 0 {
        Seq::empty()
    } else {
        json_escaped(s.drop_last()) + json_escape_char(s.last())
    }
}

/// What `serde_json::to_string(s)` gives for a string: `s` as a JSON string
/// literal, between double quotes and escaped.
pub open spec fn json_quoted(s: Seq<char>) -> Seq<char> {
    seq!['"'] + json_escaped(s) + seq!['"']
}

/// What `DateTime::<Utc>::from_timestamp_micros(t)` shows through
/// `to_rfc3339_opts(SecondsFormat::Micros, true)`, e.g.
/// `2026-04-24T10:00:00.000000Z`; `None` where chrono has no such instant.
pub uninterp spec fn rfc3339_micros_z(t: i64) -> Option<Seq<char>>;

/// What `DateTime::<Utc>::from_timestamp_micros(t)` shows through
/// `to_rfc3339()`, e.g. `2026-04-24T10:00:00+00:00`; `None` where chrono has
/// no such instant.
pub uninterp spec fn rfc3339_auto(t: i64) -> Option<Seq<char>>;

/// The instants that chrono represents for certain: within about 253,000
/// years of 1970 (chrono reaches the years -262,144 to 262,142).
pub open spec fn in_chrono_range(t: i64) -> bool {
    -8_000_000_000_000_000_000 <= t <= 8_000_000_000_000_000_000
}

/// `serde_json::to_string(s)`; serializing a `&str` does not fail.
#[verifier::external_body]
pub(crate) fn json_quote(s: &str) -> (r: String)
    ensures
        r@ == json_quoted(s@),
{
    serde_json::to_string(s).unwrap_or_default()
}

/// `DateTime::<Utc>::from_timestamp_micros(t)` formatted by
/// `to_rfc3339_opts(SecondsFormat::Micros, true)`.
#[verifier::external_body]
pub(crate) fn rfc3339_micros(t: i64) -> (r: Option<String>)
    ensures
        match r {
            Some(s) => rfc3339_micros_z(t) == Some(s@),
            None => rfc3339_micros_z(t) is None,
        },
        in_chrono_range(t) ==> r is Some,
{
    match chrono::DateTime::<chrono::Utc>::from_timestamp_micros(t) {
        Some(d) => Some(d.to_rfc3339_opts(chrono::SecondsFormat::Micros, true)),
        None => None,
    }
}

/// `DateTime::<Utc>::from_timestamp_micros(t)` formatted by `to_rfc3339()`.
#[verifier::external_body]
pub(crate) fn rfc3339(t: i64) -> (r: Option<String>)
    ensures
        match r {
            Some(s) => rfc3339_auto(t) == Some(s@),
            None => rfc3339_auto(t) is None,
        },
        in_chrono_range(t) ==> r is Some,
{
    match chrono::DateTime::<chrono::Utc>::from_timestamp_micros(t) {
        Some(d) => Some(d.to_rfc3339()),
        None => None,
    }
}

/// What `DateTime::<Utc>::from_timestamp_micros(t)` shows through
/// `format(pattern).to_string()`; `None` where chrono has no such instant.
pub uninterp spec fn utc_formatted(t: i64, pattern: Seq<char>) -> Option<Seq<char>>;

/// The compact UTC stamp `%Y%m%dT%H%M%SZ`, e.g. `20260424T100000Z`.
pub open spec fn compact_pattern() -> Seq<char> {
    "%Y%m%dT%H%M%SZ"@
}

/// `DateTime::<Utc>::from_timestamp_micros(t)` formatted with `pattern`
/// (only the compact stamp is asked for: chrono's `to_string` panics on a
/// pattern it cannot format).
#[verifier::external_body]
pub(crate) fn format_utc(t: i64, pattern: &str) -> (r: Option<String>)
    requires
        pattern@ == compact_pattern(),
    ensures
        match r {
            Some(s) => utc_formatted(t, pattern@) == Some(s@),
            None => utc_formatted(t, pattern@) is None,
        },
        in_chrono_range(t) ==> r is Some,
{
    match chrono::DateTime::<chrono::Utc>::from_timestamp_micros(t) {
        Some(d) => Some(d.format(pattern).to_string()),
        None => None,
    }
}

} // verus!
