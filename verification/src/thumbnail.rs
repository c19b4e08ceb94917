//! Thumbnails of image items: where they are cached and how they are made.
//!
//! The cache path is `<cache>/<first two ULID characters>/<rest>.png`;
//! thumbnails are small, shown only in the UI, and kept unencrypted.
//! Decoding is pinned to PNG, the only format image payloads are stored
//! in, so no other decoder is ever reached from clipboard data.

use vstd::prelude::*;
use crate::clipboard::dib::{transcode_view, ImageStep};
use crate::error::{CnxError, Result};
use crate::ids::{ulid_text, ClipId};
use crate::text::{chars_of, path_join_spec, path_push, push_str, slice_chars, string_of};

verus! {

/// The edge length of a thumbnail, in pixels.
pub const THUMB_SIZE: u32 = 32;

/// The state of one item's thumbnail.
#[derive(Clone, Debug)]
pub enum ThumbnailState {
    /// Not queued or generating yet.
    Pending,
    /// Queued; waiting for the worker.
    Generating,
    /// Cached at this path.
    Ready(String),
    /// The image could not be decoded or encoded.
    Failed(String),
}

/// `cache/xx/rest.png` for an id whose ULID text is `xx` followed by
/// `rest`.
pub open spec fn thumb_path_spec(cache_dir: Seq<char>, id: ClipId) -> Seq<char> {
    let t = ulid_text(id.0);
    path_join_spec(path_join_spec(cache_dir, t.take(2)), t.skip(2) + ".png"@)
}

/// Where the thumbnail of an item is cached.
pub fn cache_path_for(cache_dir: &str, id: &ClipId) -> (r: String)
    ensures
        r@ == thumb_path_spec(cache_dir@, *id),
{
    let t = chars_of(id.to_text().as_str());
    let mut out = chars_of(cache_dir);
    path_push(&mut out, &slice_chars(&t, 0, 2));
    let mut rest = slice_chars(&t, 2, 26);
    push_str(&mut rest, ".png");
    path_push(&mut out, &rest);
    assert(t@.subrange(0, 2) =~= t@.take(2));
    assert(t@.subrange(2, 26) =~= t@.skip(2));
    string_of(&out)
}

/// Name for what the `image` crate gives when it decodes PNG bytes
/// (decoder pinned to PNG), resizes the picture to fit `size` x `size`
/// with the Lanczos3 filter, and encodes it as PNG: the bytes, or the step
/// that failed with the text of its error.
pub uninterp spec fn png_thumbnail(png: Seq<u8>, size: u32) -> core::result::Result<Seq<u8>, (ImageStep, Seq<char>)>;

/// Wraps `image::load_from_memory_with_format(.., ImageFormat::Png)`,
/// `DynamicImage::resize(size, size, FilterType::Lanczos3)` and
/// `DynamicImage::write_to(.., ImageFormat::Png)`; the outcome is named
/// [`png_thumbnail`]. The calls share one name because what passes between
/// them is a decoded picture, which has no plain value here.
#[verifier::external_body]
fn resize_png(png: &[u8], size: u32) -> (r: core::result::Result<Vec<u8>, (ImageStep, String)>)
    ensures
        transcode_view(r) == png_thumbnail(png@, size),
{
    let img = image::load_from_memory_with_format(png, image::ImageFormat::Png)
        .map_err(|e| (ImageStep::Decode, e.to_string()))?;
    let thumb = img.resize(size, size, image::imageops::FilterType::Lanczos3);
    let mut out = Vec::new();
    thumb.write_to(&mut std::io::Cursor::new(&mut out), image::ImageFormat::Png)
        .map_err(|e| (ImageStep::Encode, e.to_string()))?;
    Ok(out)
}

/// The message of a failed thumbnail step: `thumbnail decode: ` or
/// `thumbnail save: ` before the error text.
pub open spec fn thumb_failure_message(step: ImageStep, text: Seq<char>) -> Seq<char> {
    match step {
        ImageStep::Decode => "thumbnail decode: "@ + text,
        ImageStep::Encode => "thumbnail save: "@ + text,
    }
}

/// The PNG thumbnail of PNG image bytes, at most [`THUMB_SIZE`] pixels on
/// each side.
pub fn thumbnail_png(png: &[u8]) -> (r: Result<Vec<u8>>)
    ensures
        match png_thumbnail(png@, THUMB_SIZE) {
            Ok(t) => r matches Ok(v) && v@ == t,
            Err((k, m)) => r matches Err(CnxError::Other(e)) && e@ == thumb_failure_message(k, m),
        },
{
    match resize_png(png, THUMB_SIZE) {
        Ok(v) => Ok(v),
        Err((k, m)) => {
            let mut out: Vec<char> = Vec::new();
            match k {
                ImageStep::Decode => push_str(&mut out, "thumbnail decode: "),
                ImageStep::Encode => push_str(&mut out, "thumbnail save: "),
            }
            push_str(&mut out, m.as_str());
            Err(CnxError::Other(string_of(&out)))
        },
    }
}

} // verus!
