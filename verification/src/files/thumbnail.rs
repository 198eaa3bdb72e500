//! Thumbnails of uploaded images: which uploads get one, and the JPEG of at
//! most 256 by 256 pixels made with the image crate.
use vstd::prelude::*;

use crate::text::{chars_of, has_prefix, starts_with};

verus! {

/// Whether `image::load_from_memory` decodes `bytes` (its format is guessed
/// from its first bytes).
pub uninterp spec fn decodes_as_image(bytes: Seq<u8>) -> bool;

/// What `image::load_from_memory(bytes)`, then `DynamicImage::thumbnail` to
/// fit within `max_width` by `max_height` (keeping the aspect ratio), then
/// `write_to` as JPEG give: the encoded bytes, `None` where the bytes do not
/// decode or the encoder refuses. Decoding, scaling and encoding are
/// deterministic, so this is a function of the arguments.
pub uninterp spec fn jpeg_thumbnail(bytes: Seq<u8>, max_width: u32, max_height: u32) -> Option<Seq<u8>>;

/// The image crate from bytes to bytes: `load_from_memory`, `thumbnail` and
/// `write_to` a buffer as JPEG (the image between the calls is the crate's
/// own type, which stays inside this wrapper). The crate's decoders return
/// errors for malformed input, but its source does not promise that no
/// crafted input makes one of them (or the JPEG encoder) panic; that is not
/// excluded here.
#[verifier::external_body]
fn thumbnail_jpeg(bytes: &[u8], max_width: u32, max_height: u32) -> (r: Option<Vec<u8>>)
    ensures
        match r {
            Some(b) => jpeg_thumbnail(bytes@, max_width, max_height) == Some(b@),
            None => jpeg_thumbnail(bytes@, max_width, max_height) is None,
        },
        !decodes_as_image(bytes@) ==> r is None,
{
    let img = match image::load_from_memory(bytes) {
        Ok(i) => i,
        Err(_) => return None,
    };
    let mut out = std::io::Cursor::new(Vec::new());
    match img.thumbnail(max_width, max_height).write_to(&mut out, image::ImageFormat::Jpeg) {
        Ok(()) => Some(out.into_inner()),
        Err(_) => None,
    }
}

/// The largest side of a thumbnail, in pixels.
pub const THUMB_SIDE: u32 = 256;

/// Uploads whose declared type is an image get a thumbnail.
pub fn wants_thumbnail(content_type: &str) -> (r: bool)
    ensures
        r == has_prefix(content_type@, "image/"@),
{
    starts_with(&chars_of(content_type), &chars_of("image/"))
}

/// The JPEG thumbnail of an image, at most 256 by 256 pixels: `None` when
/// the bytes do not decode (or the encoder refuses).
pub fn make_thumbnail(bytes: &[u8]) -> (r: Option<Vec<u8>>)
    ensures
        match r {
            Some(b) => jpeg_thumbnail(bytes@, THUMB_SIDE, THUMB_SIDE) == Some(b@),
            None => jpeg_thumbnail(bytes@, THUMB_SIDE, THUMB_SIDE) is None,
        },
        !decodes_as_image(bytes@) ==> r is None,
{
    thumbnail_jpeg(bytes, THUMB_SIDE, THUMB_SIDE)
}

} // verus!
