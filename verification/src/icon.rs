use vstd::prelude::*;

verus! {

/// Decodes encoded image bytes with `image::load_from_memory` and converts the image to 8-bit
/// RGBA with `DynamicImage::to_rgba8`, handing back its raw pixels and its dimensions, or
/// `None` when the bytes do not decode. The contract claims only what holds of every
/// outcome: an RGBA image buffer holds at least four bytes for each of its `width * height`
/// pixels. Which pixels come back is left unsaid: the decoder consults format-detection and
/// decoding hooks that any code in the process can register, so the result is not a
/// function of the bytes alone.
#[verifier::external_body]
fn decode_rgba(bytes: &[u8]) -> (out: Option<(Vec<u8>, u32, u32)>)
    ensures
        out matches Some((px, w, h)) ==> px@.len() >= 4 * w * h,
{
    match image::load_from_memory(bytes) {
        Ok(img) => {
            let rgba = img.to_rgba8();
            let (w, h) = rgba.dimensions();
            Some((rgba.into_raw(), w, h))
        },
        Err(_) => None,
    }
}

/// A decoded window icon: RGBA pixels, row by row, and its size.
#[derive(Debug, Clone)]
pub struct IconImage {
    pub rgba: Vec<u8>,
    pub width: u32,
    pub height: u32,
}

/// Builds the icon from a decoded image, given as its RGBA pixels, width and height; no
/// icon when nothing was decoded. Pixels and size pass through unchanged.
pub fn icon_from_decoded(decoded: Option<(Vec<u8>, u32, u32)>) -> (icon: Option<IconImage>)
    ensures
        match decoded {
            Some((px, w, h)) => icon matches Some(i) && i.rgba@ == px@ && i.width == w
                && i.height == h,
            None => icon is None,
        },
{
    match decoded {
        Some((rgba, width, height)) => Some(IconImage { rgba, width, height }),
        None => None,
    }
}

/// Decodes the application icon from its encoded bytes; `None` when they do not decode.
/// Whatever the decoder makes of the bytes, an icon holds at least four bytes for each
/// pixel.
pub fn load_app_icon(bytes: &[u8]) -> (icon: Option<IconImage>)
    ensures
        icon matches Some(i) ==> i.rgba@.len() >= 4 * i.width * i.height,
{
    icon_from_decoded(decode_rgba(bytes))
}

} // verus!
