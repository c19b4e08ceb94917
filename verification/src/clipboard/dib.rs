//! Device-independent bitmaps (`CF_DIB` / `CF_DIBV5`) from the Windows
//! clipboard, turned into PNG.
//!
//! The header's `biSize` decides where the pixels start; a
//! `BITMAPFILEHEADER` is put in front so that the image decoder recognises
//! the data as a BMP file.

use vstd::prelude::*;
use crate::error::{CnxError, Result};
use crate::text::{decimal, decimal_chars, push_all, push_str, string_of};

verus! {

/// The little-endian `u32` at the start of `b`.
pub open spec fn le_u32(b: Seq<u8>) -> u32 {
    ((b[0] as u32) | ((b[1] as u32) << 8u32) | ((b[2] as u32) << 16u32) | ((b[3] as u32) << 24u32)) as u32
}

/// The four little-endian bytes of `v`.
pub open spec fn le_bytes(v: u32) -> Seq<u8> {
    seq![(v & 0xff) as u8, ((v >> 8u32) & 0xff) as u8, ((v >> 16u32) & 0xff) as u8, ((v >> 24u32) & 0xff) as u8]
}

/// `14 + len`, where `len` is taken modulo 2^32, saturating at `u32::MAX`.
pub open spec fn file_size_field(len: nat) -> u32 {
    let l = (len % 0x1_0000_0000) as int;
    if l + 14 > u32::MAX { u32::MAX } else { (l + 14) as u32 }
}

/// The BMP file for a DIB whose header is `bi_size` bytes long.
pub open spec fn bmp_file_spec(raw: Seq<u8>) -> Seq<u8> {
    seq![66u8, 77u8] + le_bytes(file_size_field(raw.len())) + le_bytes(0) + le_bytes((14 + le_u32(raw)) as u32) + raw
}

/// Whether the header size would overflow the 32-bit pixel offset.
pub open spec fn offset_overflows(raw: Seq<u8>) -> bool {
    raw.len() >= 40 && le_u32(raw) <= raw.len() && le_u32(raw) + 14 > u32::MAX
}

pub open spec fn too_short_message(len: nat) -> Seq<char> {
    "CF_DIB too short ("@ + decimal(len) + " bytes, need ≥ 40)"@
}

pub open spec fn header_too_large_message(bi_size: nat, len: nat) -> Seq<char> {
    "BITMAPINFOHEADER biSize ("@ + decimal(bi_size) + ") > buffer length ("@ + decimal(len) + ")"@
}

fn push_le(out: &mut Vec<u8>, v: u32)
    ensures
        final(out)@ == old(out)@ + le_bytes(v),
{
    out.push((v & 0xff) as u8);
    out.push(((v >> 8u32) & 0xff) as u8);
    out.push(((v >> 16u32) & 0xff) as u8);
    out.push(((v >> 24u32) & 0xff) as u8);
    assert(out@ =~= old(out)@ + le_bytes(v));
}

/// The BMP file bytes of a `CF_DIB` buffer: a file header (`"BM"`, the
/// file size, a zero reserved field, the pixel offset `14 + biSize`) and
/// then the buffer. Refused when the buffer cannot hold a
/// `BITMAPINFOHEADER` (40 bytes) or when `biSize` exceeds the buffer.
pub fn dib_to_bmp(raw: &[u8]) -> (r: Result<Vec<u8>>)
    requires
        !offset_overflows(raw@),
    ensures
        raw@.len() < 40 ==> (r matches Err(CnxError::Clipboard(m)) && m@ == too_short_message(raw@.len())),
        raw@.len() >= 40 && le_u32(raw@) > raw@.len() ==> (r matches Err(CnxError::Clipboard(m))
            && m@ == header_too_large_message(le_u32(raw@) as nat, raw@.len())),
        raw@.len() >= 40 && le_u32(raw@) <= raw@.len() ==> (r matches Ok(b) && b@ == bmp_file_spec(raw@)),
{
    let len = raw.len();
    if len < 40 {
        let mut m: Vec<char> = Vec::new();
        push_str(&mut m, "CF_DIB too short (");
        push_all(&mut m, &decimal_chars(len as u64));
        push_str(&mut m, " bytes, need ≥ 40)");
        return Err(CnxError::Clipboard(string_of(&m)));
    }
    let bi_size: u32 = (raw[0] as u32) | ((raw[1] as u32) << 8u32) | ((raw[2] as u32) << 16u32) | ((raw[3] as u32) << 24u32);
    assert(bi_size == le_u32(raw@));
    if bi_size as usize > len {
        let mut m: Vec<char> = Vec::new();
        push_str(&mut m, "BITMAPINFOHEADER biSize (");
        push_all(&mut m, &decimal_chars(bi_size as u64));
        push_str(&mut m, ") > buffer length (");
        push_all(&mut m, &decimal_chars(len as u64));
        push_str(&mut m, ")");
        return Err(CnxError::Clipboard(string_of(&m)));
    }
    let len64: u64 = len as u64;
    let low: u32 = len64 as u32;
    assert(low == len64 % 0x1_0000_0000) by (bit_vector)
        requires low == len64 as u32;
    let file_size: u32 = if low > u32::MAX - 14 { u32::MAX } else { 14 + low };
    let pixel_offset: u32 = 14 + bi_size;
    let mut bmp: Vec<u8> = Vec::new();
    bmp.push(66u8);
    bmp.push(77u8);
    push_le(&mut bmp, file_size);
    push_le(&mut bmp, 0);
    push_le(&mut bmp, pixel_offset);
    let ghost head = bmp@;
    let mut i: usize = 0;
    while i < len
        invariant
            i <= len,
            len == raw@.len(),
            bmp@ == head + raw@.take(i as int),
        decreases len - i,
    {
        bmp.push(raw[i]);
        assert(raw@.take(i + 1) =~= raw@.take(i as int).push(raw@[i as int]));
        i += 1;
    }
    assert(raw@.take(len as int) =~= raw@);
    assert(bmp@ =~= bmp_file_spec(raw@));
    Ok(bmp)
}

/// The step of an image conversion that failed.
#[derive(Clone, Copy, Debug, PartialEq, Eq, Structural)]
pub enum ImageStep {
    Decode,
    Encode,
}

/// Name for what the `image` crate gives when it decodes a BMP file and
/// encodes the picture as PNG: the PNG bytes, or the step that failed with
/// the text of its error.
pub uninterp spec fn bmp_png_transcode(bmp: Seq<u8>) -> core::result::Result<Seq<u8>, (ImageStep, Seq<char>)>;

/// The view of a conversion outcome.
pub open spec fn transcode_view(r: core::result::Result<Vec<u8>, (ImageStep, String)>) -> core::result::Result<Seq<u8>, (ImageStep, Seq<char>)> {
    match r {
        Ok(v) => Ok(v@),
        Err((k, m)) => Err((k, m@)),
    }
}

/// Wraps `image::load_from_memory_with_format(.., ImageFormat::Bmp)`
/// followed by `DynamicImage::write_to(.., ImageFormat::Png)`; the result,
/// PNG bytes or the failing step with its error text, is named
/// [`bmp_png_transcode`]. The two calls share one name because what passes
/// between them is a decoded picture, which has no plain value here.
#[verifier::external_body]
fn bmp_to_png(bmp: &[u8]) -> (r: core::result::Result<Vec<u8>, (ImageStep, String)>)
    ensures
        transcode_view(r) == bmp_png_transcode(bmp@),
{
    let img = image::load_from_memory_with_format(bmp, image::ImageFormat::Bmp)
        .map_err(|e| (ImageStep::Decode, e.to_string()))?;
    let mut out = Vec::new();
    img.write_to(&mut std::io::Cursor::new(&mut out), image::ImageFormat::Png)
        .map_err(|e| (ImageStep::Encode, e.to_string()))?;
    Ok(out)
}

/// The message of a failed conversion step: `DIB decode: ` or
/// `PNG encode: ` before the error text.
pub open spec fn dib_failure_message(step: ImageStep, text: Seq<char>) -> Seq<char> {
    match step {
        ImageStep::Decode => "DIB decode: "@ + text,
        ImageStep::Encode => "PNG encode: "@ + text,
    }
}

/// PNG bytes of a `CF_DIB` / `CF_DIBV5` buffer: the header checks of
/// [`dib_to_bmp`], then the decoder's verdict on the BMP file.
pub fn dib_to_png(raw: &[u8]) -> (r: Result<Vec<u8>>)
    requires
        !offset_overflows(raw@),
    ensures
        raw@.len() < 40 ==> (r matches Err(CnxError::Clipboard(m)) && m@ == too_short_message(raw@.len())),
        raw@.len() >= 40 && le_u32(raw@) > raw@.len() ==> (r matches Err(CnxError::Clipboard(m))
            && m@ == header_too_large_message(le_u32(raw@) as nat, raw@.len())),
        raw@.len() >= 40 && le_u32(raw@) <= raw@.len() ==> match bmp_png_transcode(bmp_file_spec(raw@)) {
            Ok(png) => r matches Ok(v) && v@ == png,
            Err((k, m)) => r matches Err(CnxError::Clipboard(e)) && e@ == dib_failure_message(k, m),
        },
{
    let bmp = dib_to_bmp(raw)?;
    match bmp_to_png(bmp.as_slice()) {
        Ok(png) => Ok(png),
        Err((k, m)) => {
            let mut out: Vec<char> = Vec::new();
            match k {
                ImageStep::Decode => push_str(&mut out, "DIB decode: "),
                ImageStep::Encode => push_str(&mut out, "PNG encode: "),
            }
            push_str(&mut out, m.as_str());
            Err(CnxError::Clipboard(string_of(&out)))
        },
    }
}

} // verus!
