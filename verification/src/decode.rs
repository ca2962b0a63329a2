//! Decoding of encoded images, done by the `image` crate.

use vstd::prelude::*;
use image::load_from_memory;

verus! {

/// What decoding an image came to: its size and the luminance of each
/// pixel, row by row.
#[derive(Debug, PartialEq, Eq)]
pub struct DecodedImage {
    pub width: u32,
    pub height: u32,
    pub luma: Vec<u8>,
}

/// Decodes an encoded image with `image::load_from_memory`, which guesses
/// the format, and reduces it to luminance at its own resolution with
/// `DynamicImage::to_luma8`. `None` if `load_from_memory` reports an error.
///
/// Trusted, not proved. Nothing is claimed of the outcome, which may depend
/// on the decoders that the process has registered with the `image` crate:
/// the caller takes whatever comes back and checks the size against the
/// number of pixels. What is relied on is that the call returns:
/// `load_from_memory` documents no panic and reports bytes that it cannot
/// decode as an error.
#[verifier::external_body]
pub(crate) fn decode_luma(encoded: &[u8]) -> (decoded: Option<DecodedImage>) {
    let gray = load_from_memory(encoded).ok()?.to_luma8();
    let (width, height) = gray.dimensions();
    Some(DecodedImage { width, height, luma: gray.into_raw() })
}

} // verus!
