//! Identifiers: UUIDs are carried as 128-bit integers and written in the
//! canonical hyphenated lower-case form of the uuid crate.
use vstd::prelude::*;

use crate::crypto::hex_char;

verus! {

/// `16^e`.
pub open spec fn pow16(e: nat) -> nat
    decreases e,
{
    if e == 0 {
        1
    } else {
        16 * pow16((e - 1) as nat)
    }
}

/// The `k`-th hexadecimal digit of `x`, most significant first (`0 <= k < 32`).
pub open spec fn nibble(x: u128, k: int) -> int {
    (x as int / pow16((31 - k) as nat) as int) % 16
}

/// The position among the 32 hexadecimal digits of character `i` of the
/// hyphenated form.
pub open spec fn digit_index(i: int) -> int {
    if i < 8 {
        i
    } else if i < 13 {
        i - 1
    } else if i < 18 {
        i - 2
    } else if i < 23 {
        i - 3
    } else {
        i - 4
    }
}

/// `i` is one of the four hyphen positions of the hyphenated form.
pub open spec fn is_hyphen_pos(i: int) -> bool {
    i == 8 || i == 13 || i == 18 || i == 23
}

/// The hyphenated form `xxxxxxxx-xxxx-xxxx-xxxx-xxxxxxxxxxxx` of `x`.
pub open spec fn uuid_text(x: u128) -> Seq<char> {
    Seq::new(
        36,
        |i: int|
            if is_hyphen_pos(i) {
                '-'
            } else {
                hex_char(nibble(x, digit_index(i)))
            },
    )
}

/// What `uuid::Uuid::parse_str` reads from `s` (simple, hyphenated, braced or
/// URN form), or `None` when it refuses `s`.
pub uninterp spec fn uuid_parse_spec(s: Seq<char>) -> Option<u128>;

/// `Uuid::from_u128(x).to_string()`: the hyphenated lower-case form.
#[verifier::external_body]
pub(crate) fn uuid_to_string(x: u128) -> (s: String)
    ensures
        s@ == uuid_text(x),
{
    uuid::Uuid::from_u128(x).to_string()
}

/// `Uuid::parse_str(s)` as a 128-bit value; the hyphenated form of a value
/// reads back as that value.
#[verifier::external_body]
pub(crate) fn uuid_parse(s: &str) -> (r: Option<u128>)
    ensures
        r == uuid_parse_spec(s@),
        forall|x: u128| #[trigger] uuid_text(x) == s@ ==> r == Some(x),
{
    match uuid::Uuid::parse_str(s) {
        Ok(u) => Some(u.as_u128()),
        Err(_) => None,
    }
}

/// The hyphenated form holds no `:` (it is made of hex digits and hyphens).
pub proof fn lemma_uuid_text_no_colon(x: u128)
    ensures
        !uuid_text(x).contains(':'),
        uuid_text(x).len() == 36,
{
    assert forall|i: int| 0 <= i < 36 implies #[trigger] uuid_text(x)[i] != ':' by {
        if !is_hyphen_pos(i) {
            let n = nibble(x, digit_index(i));
            assert(0 <= n < 16);
        }
    }
}

/// The hyphenated form: 36 characters, `-` at positions 8, 13, 18 and 23,
/// lower-case hexadecimal digits elsewhere; the last character is the
/// lowest digit of the value.
pub proof fn lemma_uuid_text_shape(x: u128)
    ensures
        uuid_text(x).len() == 36,
        uuid_text(x)[8] == '-' && uuid_text(x)[13] == '-' && uuid_text(x)[18] == '-' && uuid_text(x)[23] == '-',
        forall|i: int|
            0 <= i < 36 && i != 8 && i != 13 && i != 18 && i != 23 ==> ('0' <= #[trigger] uuid_text(x)[i] <= '9' || 'a'
                <= uuid_text(x)[i] <= 'f'),
        uuid_text(x)[35] == hex_char(x as int % 16),
{
    assert forall|i: int| 0 <= i < 36 && i != 8 && i != 13 && i != 18 && i != 23 implies ('0' <= #[trigger] uuid_text(x)[i]
        <= '9' || 'a' <= uuid_text(x)[i] <= 'f') by {
        let k = digit_index(i);
        let p = pow16((31 - k) as nat) as int;
        lemma_pow16_positive((31 - k) as nat);
        assert(0 <= (x as int / p) % 16 < 16) by (nonlinear_arith)
            requires
                p > 0,
                x >= 0,
        ;
    }
    assert(digit_index(35) == 31);
    assert(pow16(0) == 1);
    assert(x as int / 1 == x as int);
}

proof fn lemma_pow16_positive(e: nat)
    ensures
        pow16(e) > 0,
    decreases e,
{
    if e > 0 {
        lemma_pow16_positive((e - 1) as nat);
    }
}

} // verus!
