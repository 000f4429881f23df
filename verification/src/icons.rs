//! Decoding the resource icons into RGBA pixel buffers.
use vstd::prelude::*;

verus! {

/// What decoding `bytes` as an image and converting it to 8-bit RGBA gives:
/// width, height and the raw pixel bytes, or `None` where decoding fails.
pub uninterp spec fn decoded_rgba8(bytes: Seq<u8>) -> Option<(u32, u32, Seq<u8>)>;

/// Number of bytes that `width * height` RGBA pixels take.
pub open spec fn rgba_len(width: int, height: int) -> int {
    width * height * 4
}

/// Decodes an image with `image::load_from_memory`, converts it with
/// `DynamicImage::to_rgba8` and hands out width, height and
/// `ImageBuffer::into_raw`. The result is named `decoded_rgba8`. Every
/// constructor of an `ImageBuffer` (`new`, `from_raw`, `from_vec`) makes the
/// buffer hold at least four bytes per pixel of an RGBA image, so the raw
/// bytes are at least `width * height * 4` long; that they are exactly that
/// long is not stated.
#[verifier::external_body]
fn decode_rgba8(bytes: &[u8]) -> (decoded: Option<(u32, u32, Vec<u8>)>)
    ensures
        decoded is None <==> decoded_rgba8(bytes@) is None,
        decoded is Some ==> decoded_rgba8(bytes@) == Some(
            (decoded.unwrap().0, decoded.unwrap().1, decoded.unwrap().2@),
        ),
        decoded is Some ==> decoded.unwrap().2@.len() >= rgba_len(
            decoded.unwrap().0 as int,
            decoded.unwrap().1 as int,
        ),
{
    match image::load_from_memory(bytes) {
        Ok(img) => {
            let rgba = img.to_rgba8();
            let (width, height) = (rgba.width(), rgba.height());
            Some((width, height, rgba.into_raw()))
        },
        Err(_) => None,
    }
}

/// An icon's pixels: `width * height` RGBA pixels, row by row.
pub struct IconImage {
    pub width: usize,
    pub height: usize,
    pub pixels: Vec<u8>,
}

/// Makes an icon of decoded pixels: the first four bytes per pixel of the
/// buffer, provided it holds that many; `None` otherwise.
pub fn icon_from_decoded(width: u32, height: u32, pixels: Vec<u8>) -> (icon: Option<IconImage>)
    ensures
        icon is Some <==> pixels@.len() >= rgba_len(width as int, height as int),
        icon is Some ==> icon.unwrap().width == width && icon.unwrap().height == height
            && icon.unwrap().pixels@ == pixels@.take(rgba_len(width as int, height as int)),
{
    assert((width as int) * (height as int) <= u64::MAX) by (nonlinear_arith)
        requires
            width <= u32::MAX,
            height <= u32::MAX,
    ;
    let area: u64 = (width as u64) * (height as u64);
    assert(pixels@.len() == pixels.len());
    let expected = area.checked_mul(4);
    match expected {
        None => None,
        Some(bytes) => {
            if (pixels.len() as u64) < bytes {
                None
            } else {
                let ghost original = pixels@;
                let mut pixels = pixels;
                pixels.truncate(bytes as usize);
                assert(pixels@ =~= original.take(bytes as int));
                Some(IconImage { width: width as usize, height: height as usize, pixels })
            }
        },
    }
}

/// Decodes an icon image file: `None` exactly where the bytes are no image;
/// otherwise its dimensions and its first four bytes per pixel.
pub fn load_icon(bytes: &[u8]) -> (icon: Option<IconImage>)
    ensures
        icon is Some <==> decoded_rgba8(bytes@) is Some,
        match decoded_rgba8(bytes@) {
            None => true,
            Some((w, h, px)) => icon.unwrap().width == w && icon.unwrap().height == h
                && icon.unwrap().pixels@ == px.take(rgba_len(w as int, h as int)),
        },
{
    match decode_rgba8(bytes) {
        Some((width, height, pixels)) => icon_from_decoded(width, height, pixels),
        None => None,
    }
}

} // verus!
