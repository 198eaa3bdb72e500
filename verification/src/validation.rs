//! Input checks shared by the request bodies: length bounds counted in
//! characters, e-mail syntax (validator crate), whitespace trimming and
//! lower-casing of e-mail addresses.
use vstd::prelude::*;

use validator::ValidateEmail as _;

use crate::text::push_chars;

verus! {

/// Whether the validator crate's `ValidateEmail::validate_email` accepts `s`
/// (HTML5 e-mail syntax, with IDN domains).
pub uninterp spec fn email_ok(s: Seq<char>) -> bool;

/// Whether `char::is_whitespace` holds for `c`: the Unicode `White_Space`
/// property, that is U+0009 to U+000D, U+0020, U+0085, U+00A0, U+1680,
/// U+2000 to U+200A, U+2028, U+2029, U+202F, U+205F and U+3000.
pub open spec fn is_white(c: char) -> bool {
    let n = c as int;
    (9 <= n <= 13) || n == 0x20 || n == 0x85 || n == 0xA0 || n == 0x1680 || (0x2000 <= n <= 0x200A) || n
        == 0x2028 || n == 0x2029 || n == 0x202F || n == 0x205F || n == 0x3000
}

/// What `str::to_lowercase` returns for `s`.
pub uninterp spec fn lowercase(s: Seq<char>) -> Seq<char>;

/// A field that failed its check, and the kind of check (`email`, `length`,
/// `range`, `regex`).
pub struct ValidationError {
    pub field: String,
    pub code: String,
}

/// `validator::ValidateEmail::validate_email` on `s`; an empty string or one
/// without `@` is refused.
#[verifier::external_body]
pub(crate) fn is_valid_email(s: &str) -> (r: bool)
    ensures
        r == email_ok(s@),
        (s@.len() == 0 || !s@.contains('@')) ==> !r,
{
    s.validate_email()
}

/// `char::is_whitespace`; ASCII space, tab, line feed and carriage return are
/// whitespace.
#[verifier::external_body]
pub(crate) fn char_is_whitespace(c: char) -> (r: bool)
    ensures
        r == is_white(c),
        (c == ' ' || c == '\t' || c == '\n' || c == '\r') ==> r,
{
    c.is_whitespace()
}

/// `str::to_lowercase`.
#[verifier::external_body]
pub(crate) fn to_lowercase(s: &str) -> (r: String)
    ensures
        r@ == lowercase(s@),
{
    s.to_lowercase()
}

/// The number of characters is within `[min, max]` (the validator crate's
/// `length` check on strings counts characters).
pub open spec fn len_within(s: Seq<char>, min: nat, max: nat) -> bool {
    min <= s.len() <= max
}

/// Whether `s` has between `min` and `max` characters.
pub fn length_ok(s: &str, min: usize, max: usize) -> (r: bool)
    ensures
        r == len_within(s@, min as nat, max as nat),
{
    let n = s.unicode_len();
    min <= n && n <= max
}

/// A failed check on `field` of kind `code`.
pub fn invalid(field: &str, code: &str) -> (e: ValidationError)
    ensures
        e.field@ == field@,
        e.code@ == code@,
{
    ValidationError { field: field.to_owned(), code: code.to_owned() }
}

/// The (field, kind) pairs of failed checks.
pub open spec fn failure_views(v: Seq<ValidationError>) -> Seq<(Seq<char>, Seq<char>)> {
    v.map_values(|e: ValidationError| (e.field@, e.code@))
}

/// The failed check `(field, code)` when `ok` is false; nothing otherwise.
pub open spec fn failure_if(ok: bool, field: Seq<char>, code: Seq<char>) -> Seq<(Seq<char>, Seq<char>)> {
    if ok {
        Seq::empty()
    } else {
        seq![(field, code)]
    }
}

/// Records a failed check on `field` of kind `code` unless `ok`.
pub fn note(errs: &mut Vec<ValidationError>, ok: bool, field: &str, code: &str)
    ensures
        failure_views(final(errs)@) == failure_views(old(errs)@) + failure_if(ok, field@, code@),
{
    let ghost before = errs@;
    if !ok {
        errs.push(invalid(field, code));
        assert(failure_views(errs@) =~= failure_views(before) + failure_if(ok, field@, code@));
    } else {
        assert(failure_views(errs@) =~= failure_views(before) + failure_if(ok, field@, code@));
    }
}

/// The outcome of the checks: `Ok` when none failed, else all the failures.
pub fn outcome(errs: Vec<ValidationError>) -> (r: Result<(), Vec<ValidationError>>)
    ensures
        errs@.len() == 0 ==> r is Ok,
        errs@.len() > 0 ==> r == Err::<(), Vec<ValidationError>>(errs),
        failure_views(errs@).len() == errs@.len(),
{
    if errs.len() == 0 {
        Ok(())
    } else {
        Err(errs)
    }
}

/// The index of the first non-whitespace character (the length when none).
pub open spec fn first_non_white(s: Seq<char>) -> int
    decreases s.len(),
{
    if s.len() == 0 {
        0
    } else if !is_white(s[0]) {
        0
    } else {
        1 + first_non_white(s.drop_first())
    }
}

/// The index just past the last non-whitespace character (0 when none).
pub open spec fn end_non_white(s: Seq<char>) -> int
    decreases s.len(),
{
    if s.len() == 0 {
        0
    } else if !is_white(s.last()) {
        s.len() as int
    } else {
        end_non_white(s.drop_last())
    }
}

/// `str::trim`: `s` without leading and trailing whitespace.
pub open spec fn trimmed(s: Seq<char>) -> Seq<char> {
    if first_non_white(s) >= end_non_white(s) {
        Seq::empty()
    } else {
        s.subrange(first_non_white(s), end_non_white(s))
    }
}

proof fn lemma_first_non_white(s: Seq<char>, i: int)
    requires
        0 <= i <= s.len(),
        forall|j: int| 0 <= j < i ==> is_white(#[trigger] s[j]),
        i == s.len() || !is_white(s[i]),
    ensures
        first_non_white(s) == i,
    decreases s.len(),
{
    if s.len() > 0 && i > 0 {
        assert forall|j: int| 0 <= j < i - 1 implies is_white(#[trigger] s.drop_first()[j]) by {
            assert(s.drop_first()[j] == s[j + 1]);
        }
        lemma_first_non_white(s.drop_first(), i - 1);
    }
}

proof fn lemma_end_non_white(s: Seq<char>, k: int)
    requires
        0 <= k <= s.len(),
        forall|j: int| k <= j < s.len() ==> is_white(#[trigger] s[j]),
        k == 0 || !is_white(s[k - 1]),
    ensures
        end_non_white(s) == k,
    decreases s.len(),
{
    if s.len() > 0 && k < s.len() {
        assert forall|j: int| k <= j < s.drop_last().len() implies is_white(#[trigger] s.drop_last()[j]) by {
            assert(s.drop_last()[j] == s[j]);
        }
        lemma_end_non_white(s.drop_last(), k);
    }
}

/// `str::trim`: the characters of `s` without leading and trailing whitespace.
pub fn trim(s: &Vec<char>) -> (r: Vec<char>)
    ensures
        r@ == trimmed(s@),
{
    let n = s.len();
    let mut i: usize = 0;
    while i < n && char_is_whitespace(s[i])
        invariant
            n == s@.len(),
            i <= n,
            forall|j: int| 0 <= j < i ==> is_white(#[trigger] s@[j]),
        decreases n - i,
    {
        i = i + 1;
    }
    proof {
        lemma_first_non_white(s@, i as int);
    }
    let mut k: usize = n;
    while k > i && char_is_whitespace(s[k - 1])
        invariant
            n == s@.len(),
            i <= k <= n,
            forall|j: int| k <= j < n ==> is_white(#[trigger] s@[j]),
        decreases k,
    {
        k = k - 1;
    }
    proof {
        if k == i {
            if i < n {
                assert(is_white(s@[i as int]));
            }
            assert(i == n);
            lemma_end_non_white(s@, 0 as int);
        } else {
            lemma_end_non_white(s@, k as int);
        }
    }
    let mut out: Vec<char> = Vec::new();
    let mut j = i;
    while j < k
        invariant
            n == s@.len(),
            i <= j <= k <= n,
            out@ == s@.subrange(i as int, j as int),
        decreases k - j,
    {
        out.push(s[j]);
        j = j + 1;
    }
    out
}

/// The normalized form of an e-mail address: trimmed, then lower-cased.
pub open spec fn normalized_email(s: Seq<char>) -> Seq<char> {
    lowercase(trimmed(s))
}

/// `email.trim().to_lowercase()`: the form in which addresses are stored and
/// looked up.
pub fn normalize_email(s: &str) -> (r: String)
    ensures
        r@ == normalized_email(s@),
{
    let cs = crate::text::chars_of(s);
    let t = trim(&cs);
    let mut ts = String::new();
    push_chars(&mut ts, &t);
    to_lowercase(ts.as_str())
}

/// Trimming drops exactly the whitespace around the text: leading and
/// trailing whitespace goes, the text between (from its first to its last
/// non-whitespace character) stays as it is; a text of whitespace only
/// trims to nothing.
pub proof fn lemma_trim_rule(pre: Seq<char>, core: Seq<char>, post: Seq<char>)
    ensures
        ((forall|j: int| 0 <= j < pre.len() ==> is_white(#[trigger] pre[j])) && (forall|j: int|
            0 <= j < post.len() ==> is_white(#[trigger] post[j])) && core.len() > 0 && !is_white(core[0]) && !is_white(
            core.last(),
        )) ==> trimmed(pre + core + post) == core && normalized_email(pre + core + post) == lowercase(core),
        (forall|j: int| 0 <= j < pre.len() ==> is_white(#[trigger] pre[j])) ==> trimmed(pre) == Seq::<char>::empty(),
{
    if (forall|j: int| 0 <= j < pre.len() ==> is_white(#[trigger] pre[j])) && (forall|j: int|
        0 <= j < post.len() ==> is_white(#[trigger] post[j])) && core.len() > 0 && !is_white(core[0]) && !is_white(
        core.last(),
    ) {
        let s = pre + core + post;
        assert forall|j: int| 0 <= j < pre.len() implies is_white(#[trigger] s[j]) by {
            assert(s[j] == pre[j]);
        }
        assert(s[pre.len() as int] == core[0]);
        lemma_first_non_white(s, pre.len() as int);
        let k: int = (pre.len() + core.len()) as int;
        assert forall|j: int| k <= j < s.len() implies is_white(#[trigger] s[j]) by {
            assert(s[j] == post[j - k]);
        }
        assert(s[k - 1] == core.last());
        lemma_end_non_white(s, k);
        assert(s.subrange(pre.len() as int, k) =~= core);
    }
    if forall|j: int| 0 <= j < pre.len() ==> is_white(#[trigger] pre[j]) {
        lemma_first_non_white(pre, pre.len() as int);
        lemma_end_non_white(pre, 0);
    }
}

} // verus!
