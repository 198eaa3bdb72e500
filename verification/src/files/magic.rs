//! The magic-byte check that an upload claimed as an image really starts like
//! an image of the claimed kind.
use vstd::prelude::*;

use crate::text::{chars_of, contains_seq, has_infix, has_prefix, starts_with};

verus! {

/// `data` starts with the bytes `p`.
pub open spec fn bytes_prefix(data: Seq<u8>, p: Seq<u8>) -> bool {
    p.len() <= data.len() && data.subrange(0, p.len() as int) == p
}

/// `data[from..from + p.len()]` is `p`.
pub open spec fn bytes_at(data: Seq<u8>, from: int, p: Seq<u8>) -> bool {
    0 <= from && from + p.len() <= data.len() && data.subrange(from, from + p.len()) == p
}

/// The claimed content type names `word` somewhere.
pub open spec fn names(claimed: Seq<char>, word: Seq<char>) -> bool {
    has_infix(claimed, word)
}

/// Whether an upload whose declared content type is `claimed` and whose first
/// bytes are `data` passes: non-images always pass; images need at least 12
/// bytes that start like a PNG, JPEG, GIF, WebP, AVIF or HEIC/HEIF file of the
/// kind the type names.
pub open spec fn image_magic_spec(claimed: Seq<char>, data: Seq<u8>) -> bool {
    if !has_prefix(claimed, "image/"@) {
        true
    } else if data.len() < 12 {
        false
    } else if bytes_prefix(data, seq![0x89u8, 0x50u8, 0x4eu8, 0x47u8]) {
        names(claimed, "png"@)
    } else if bytes_prefix(data, seq![0xffu8, 0xd8u8, 0xffu8]) {
        names(claimed, "jpeg"@) || names(claimed, "jpg"@)
    } else if bytes_prefix(data, seq![0x47u8, 0x49u8, 0x46u8, 0x38u8, 0x37u8, 0x61u8])
        || bytes_prefix(data, seq![0x47u8, 0x49u8, 0x46u8, 0x38u8, 0x39u8, 0x61u8]) {
        names(claimed, "gif"@)
    } else if bytes_at(data, 0, seq![0x52u8, 0x49u8, 0x46u8, 0x46u8]) && bytes_at(
        data,
        8,
        seq![0x57u8, 0x45u8, 0x42u8, 0x50u8],
    ) {
        names(claimed, "webp"@)
    } else if bytes_at(data, 4, seq![0x66u8, 0x74u8, 0x79u8, 0x70u8]) {
        if bytes_at(data, 8, seq![0x61u8, 0x76u8, 0x69u8, 0x66u8]) {
            names(claimed, "avif"@)
        } else if bytes_at(data, 8, seq![0x68u8, 0x65u8, 0x69u8, 0x63u8]) || bytes_at(
            data,
            8,
            seq![0x68u8, 0x65u8, 0x69u8, 0x66u8],
        ) {
            names(claimed, "heic"@) || names(claimed, "heif"@)
        } else {
            false
        }
    } else {
        false
    }
}

/// Whether `data[from..]` starts with the bytes `p`.
fn bytes_match(data: &[u8], from: usize, p: &[u8]) -> (r: bool)
    ensures
        r == bytes_at(data@, from as int, p@),
{
    if from > data.len() || p.len() > data.len() - from {
        return false;
    }
    let n = p.len();
    for i in 0..n
        invariant
            n == p@.len(),
            from + n <= data@.len(),
            from + n <= data.len(),
            forall|j: int| 0 <= j < i ==> data@[from + j] == p@[j],
    {
        if data[from + i] != p[i] {
            assert(data@.subrange(from as int, from + n)[i as int] != p@[i as int]);
            return false;
        }
    }
    assert(data@.subrange(from as int, from + n) == p@);
    true
}

/// Whether the claimed type names `word`.
fn claims(claimed: &Vec<char>, word: &str) -> (r: bool)
    ensures
        r == names(claimed@, word@),
{
    let w = chars_of(word);
    contains_seq(claimed, &w)
}

/// Accepts an upload unless it claims an image type and its first bytes do not
/// start like an image of that kind.
pub fn image_magic_ok(claimed: &str, data: &[u8]) -> (r: bool)
    ensures
        r == image_magic_spec(claimed@, data@),
{
    let c = chars_of(claimed);
    let img = chars_of("image/");
    if !starts_with(&c, &img) {
        return true;
    }
    if data.len() < 12 {
        return false;
    }
    let png: [u8; 4] = [0x89, 0x50, 0x4e, 0x47];
    let jpg: [u8; 3] = [0xff, 0xd8, 0xff];
    let gif7: [u8; 6] = [0x47, 0x49, 0x46, 0x38, 0x37, 0x61];
    let gif9: [u8; 6] = [0x47, 0x49, 0x46, 0x38, 0x39, 0x61];
    let riff: [u8; 4] = [0x52, 0x49, 0x46, 0x46];
    let webp: [u8; 4] = [0x57, 0x45, 0x42, 0x50];
    let ftyp: [u8; 4] = [0x66, 0x74, 0x79, 0x70];
    let avif: [u8; 4] = [0x61, 0x76, 0x69, 0x66];
    let heic: [u8; 4] = [0x68, 0x65, 0x69, 0x63];
    let heif: [u8; 4] = [0x68, 0x65, 0x69, 0x66];
    assert(png@ == seq![0x89u8, 0x50u8, 0x4eu8, 0x47u8]);
    assert(jpg@ == seq![0xffu8, 0xd8u8, 0xffu8]);
    assert(gif7@ == seq![0x47u8, 0x49u8, 0x46u8, 0x38u8, 0x37u8, 0x61u8]);
    assert(gif9@ == seq![0x47u8, 0x49u8, 0x46u8, 0x38u8, 0x39u8, 0x61u8]);
    assert(riff@ == seq![0x52u8, 0x49u8, 0x46u8, 0x46u8]);
    assert(webp@ == seq![0x57u8, 0x45u8, 0x42u8, 0x50u8]);
    assert(ftyp@ == seq![0x66u8, 0x74u8, 0x79u8, 0x70u8]);
    assert(avif@ == seq![0x61u8, 0x76u8, 0x69u8, 0x66u8]);
    assert(heic@ == seq![0x68u8, 0x65u8, 0x69u8, 0x63u8]);
    assert(heif@ == seq![0x68u8, 0x65u8, 0x69u8, 0x66u8]);
    if bytes_match(data, 0, &png) {
        return claims(&c, "png");
    }
    if bytes_match(data, 0, &jpg) {
        return claims(&c, "jpeg") || claims(&c, "jpg");
    }
    if bytes_match(data, 0, &gif7) || bytes_match(data, 0, &gif9) {
        return claims(&c, "gif");
    }
    if bytes_match(data, 0, &riff) && bytes_match(data, 8, &webp) {
        return claims(&c, "webp");
    }
    if bytes_match(data, 4, &ftyp) {
        if bytes_match(data, 8, &avif) {
            return claims(&c, "avif");
        }
        if bytes_match(data, 8, &heic) || bytes_match(data, 8, &heif) {
            return claims(&c, "heic") || claims(&c, "heif");
        }
    }
    false
}

/// The claimed type holds `word` at some position.
pub open spec fn holds_word(claimed: Seq<char>, word: Seq<char>) -> bool {
    exists|k: int| 0 <= k && k + word.len() <= claimed.len() && #[trigger] claimed.subrange(k, k + word.len()) == word
}

/// A JPEG (bytes `FF D8 FF`, at least 12 of them) declared with a type that
/// says `jpeg` or `jpg` is accepted.
pub proof fn lemma_jpeg_declared_as_jpeg_passes(claimed: Seq<char>, data: Seq<u8>)
    requires
        data.len() >= 12,
        data[0] == 0xffu8 && data[1] == 0xd8u8 && data[2] == 0xffu8,
        holds_word(claimed, "jpeg"@) || holds_word(claimed, "jpg"@),
    ensures
        image_magic_spec(claimed, data),
{
    assert(!bytes_prefix(data, seq![0x89u8, 0x50u8, 0x4eu8, 0x47u8])) by {
        if bytes_prefix(data, seq![0x89u8, 0x50u8, 0x4eu8, 0x47u8]) {
            assert(data.subrange(0, 4)[0] == data[0]);
        }
    }
    assert(bytes_prefix(data, seq![0xffu8, 0xd8u8, 0xffu8])) by {
        assert(data.subrange(0, 3) =~= seq![0xffu8, 0xd8u8, 0xffu8]);
    }
    if holds_word(claimed, "jpeg"@) {
        let k = choose|k: int| 0 <= k && k + "jpeg"@.len() <= claimed.len() && #[trigger] claimed.subrange(k, k + "jpeg"@.len()) == "jpeg"@;
        assert(crate::text::occurs_at(claimed, "jpeg"@, k));
    } else {
        let k = choose|k: int| 0 <= k && k + "jpg"@.len() <= claimed.len() && #[trigger] claimed.subrange(k, k + "jpg"@.len()) == "jpg"@;
        assert(crate::text::occurs_at(claimed, "jpg"@, k));
    }
}

/// A PNG (bytes `89 50 4E 47`, at least 12 of them) declared with a type
/// that says `png` is accepted.
pub proof fn lemma_png_declared_as_png_passes(claimed: Seq<char>, data: Seq<u8>)
    requires
        data.len() >= 12,
        data[0] == 0x89u8 && data[1] == 0x50u8 && data[2] == 0x4eu8 && data[3] == 0x47u8,
        holds_word(claimed, "png"@),
    ensures
        image_magic_spec(claimed, data),
{
    assert(bytes_prefix(data, seq![0x89u8, 0x50u8, 0x4eu8, 0x47u8])) by {
        assert(data.subrange(0, 4) =~= seq![0x89u8, 0x50u8, 0x4eu8, 0x47u8]);
    }
    let k = choose|k: int| 0 <= k && k + "png"@.len() <= claimed.len() && #[trigger] claimed.subrange(k, k + "png"@.len()) == "png"@;
    assert(crate::text::occurs_at(claimed, "png"@, k));
}

/// A claimed image type with fewer than 12 bytes is refused; a type that is
/// not `image/...` always passes.
pub proof fn lemma_short_image_refused_non_image_passes(claimed: Seq<char>, data: Seq<u8>)
    ensures
        (claimed.len() >= 6 && claimed.subrange(0, 6) == "image/"@ && data.len() < 12) ==> !image_magic_spec(claimed, data),
        !(claimed.len() >= 6 && claimed.subrange(0, 6) == "image/"@) ==> image_magic_spec(claimed, data),
{
    reveal_strlit("image/");
}

/// GIF (`GIF87a` or `GIF89a`) declared with a type saying `gif`, and WebP
/// (`RIFF`, four bytes, `WEBP`) declared with a type saying `webp`, are
/// accepted; a claimed image type whose bytes are a PNG is refused unless
/// the type says `png`.
pub proof fn lemma_gif_webp_pass_and_mismatch_refused(claimed: Seq<char>, data: Seq<u8>)
    ensures
        (data.len() >= 12 && data[0] == 0x47u8 && data[1] == 0x49u8 && data[2] == 0x46u8 && data[3] == 0x38u8 && (data[4]
            == 0x37u8 || data[4] == 0x39u8) && data[5] == 0x61u8 && holds_word(claimed, "gif"@)) ==> image_magic_spec(
            claimed,
            data,
        ),
        (data.len() >= 12 && data[0] == 0x52u8 && data[1] == 0x49u8 && data[2] == 0x46u8 && data[3] == 0x46u8 && data[8]
            == 0x57u8 && data[9] == 0x45u8 && data[10] == 0x42u8 && data[11] == 0x50u8 && holds_word(claimed, "webp"@))
            ==> image_magic_spec(claimed, data),
        (claimed.len() >= 6 && claimed.subrange(0, 6) == "image/"@ && data.len() >= 12 && data[0] == 0x89u8 && data[1]
            == 0x50u8 && data[2] == 0x4eu8 && data[3] == 0x47u8 && !holds_word(claimed, "png"@)) ==> !image_magic_spec(
            claimed,
            data,
        ),
{
    reveal_strlit("image/");
    if data.len() >= 12 && data[0] == 0x47u8 && data[1] == 0x49u8 && data[2] == 0x46u8 && data[3] == 0x38u8 && (data[4]
        == 0x37u8 || data[4] == 0x39u8) && data[5] == 0x61u8 && holds_word(claimed, "gif"@) {
        assert(!bytes_prefix(data, seq![0x89u8, 0x50u8, 0x4eu8, 0x47u8])) by {
            if bytes_prefix(data, seq![0x89u8, 0x50u8, 0x4eu8, 0x47u8]) {
                assert(data.subrange(0, 4)[0] == data[0]);
            }
        }
        assert(!bytes_prefix(data, seq![0xffu8, 0xd8u8, 0xffu8])) by {
            if bytes_prefix(data, seq![0xffu8, 0xd8u8, 0xffu8]) {
                assert(data.subrange(0, 3)[0] == data[0]);
            }
        }
        if data[4] == 0x37u8 {
            assert(data.subrange(0, 6) =~= seq![0x47u8, 0x49u8, 0x46u8, 0x38u8, 0x37u8, 0x61u8]);
        } else {
            assert(data.subrange(0, 6) =~= seq![0x47u8, 0x49u8, 0x46u8, 0x38u8, 0x39u8, 0x61u8]);
        }
        let k = choose|k: int| 0 <= k && k + "gif"@.len() <= claimed.len() && #[trigger] claimed.subrange(k, k + "gif"@.len()) == "gif"@;
        assert(crate::text::occurs_at(claimed, "gif"@, k));
    }
    if data.len() >= 12 && data[0] == 0x52u8 && data[1] == 0x49u8 && data[2] == 0x46u8 && data[3] == 0x46u8 && data[8]
        == 0x57u8 && data[9] == 0x45u8 && data[10] == 0x42u8 && data[11] == 0x50u8 && holds_word(claimed, "webp"@) {
        assert(!bytes_prefix(data, seq![0x89u8, 0x50u8, 0x4eu8, 0x47u8])) by {
            if bytes_prefix(data, seq![0x89u8, 0x50u8, 0x4eu8, 0x47u8]) {
                assert(data.subrange(0, 4)[0] == data[0]);
            }
        }
        assert(!bytes_prefix(data, seq![0xffu8, 0xd8u8, 0xffu8])) by {
            if bytes_prefix(data, seq![0xffu8, 0xd8u8, 0xffu8]) {
                assert(data.subrange(0, 3)[0] == data[0]);
            }
        }
        assert(!bytes_prefix(data, seq![0x47u8, 0x49u8, 0x46u8, 0x38u8, 0x37u8, 0x61u8])) by {
            if bytes_prefix(data, seq![0x47u8, 0x49u8, 0x46u8, 0x38u8, 0x37u8, 0x61u8]) {
                assert(data.subrange(0, 6)[0] == data[0]);
            }
        }
        assert(!bytes_prefix(data, seq![0x47u8, 0x49u8, 0x46u8, 0x38u8, 0x39u8, 0x61u8])) by {
            if bytes_prefix(data, seq![0x47u8, 0x49u8, 0x46u8, 0x38u8, 0x39u8, 0x61u8]) {
                assert(data.subrange(0, 6)[0] == data[0]);
            }
        }
        assert(data.subrange(0, 4) =~= seq![0x52u8, 0x49u8, 0x46u8, 0x46u8]);
        assert(data.subrange(8, 12) =~= seq![0x57u8, 0x45u8, 0x42u8, 0x50u8]);
        let k = choose|k: int| 0 <= k && k + "webp"@.len() <= claimed.len() && #[trigger] claimed.subrange(k, k + "webp"@.len()) == "webp"@;
        assert(crate::text::occurs_at(claimed, "webp"@, k));
    }
    if claimed.len() >= 6 && claimed.subrange(0, 6) == "image/"@ && data.len() >= 12 && data[0] == 0x89u8 && data[1]
        == 0x50u8 && data[2] == 0x4eu8 && data[3] == 0x47u8 && !holds_word(claimed, "png"@) {
        assert(data.subrange(0, 4) =~= seq![0x89u8, 0x50u8, 0x4eu8, 0x47u8]);
        assert(has_prefix(claimed, "image/"@));
        if names(claimed, "png"@) {
            let k = choose|k: int| crate::text::occurs_at(claimed, "png"@, k);
            assert(claimed.subrange(k, k + "png"@.len()) == "png"@);
        }
    }
}

} // verus!
