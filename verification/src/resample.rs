//! Resampling of a brightness grid, done by the `image` crate.

use vstd::prelude::*;
use image::imageops::{resize, FilterType};
use image::{ImageBuffer, Luma};

verus! {

/// The greatest side of a target that the resampler is asked for.
pub const LARGEST_TARGET: u32 = 28;

/// Whether every pixel is black.
pub open spec fn all_black(pixels: Seq<u8>) -> bool {
    forall|i: int| 0 <= i < pixels.len() ==> pixels[i] == 0
}

/// The sizes that the resampler is asked for: those on which it is known
/// to return.
///
/// The target is at most `LARGEST_TARGET` a side. The resampler places its
/// samples in single precision; for a large target the rounding can move a
/// sample so far past the last pixel that no pixel has a weight for it,
/// and the resampler panics on such a sample.
///
/// The buffers that the resampler allocates fit in a vector, which holds at
/// most `isize::MAX` bytes:
/// - its working buffer, 16 bytes (four single-precision numbers) for each
///   column of the source and row of the target;
/// - the filter's weights, at most one single-precision number for each
///   column and for each row of the source, in a vector that grows by
///   doubling and so may hold twice as many.
///
/// Its result, one byte for each pixel of the target, always fits.
pub open spec fn resample_fits(width: nat, height: nat, new_width: nat, new_height: nat) -> bool {
    &&& new_width <= LARGEST_TARGET
    &&& new_height <= LARGEST_TARGET
    &&& 16 * width * new_height <= isize::MAX
    &&& 8 * width <= isize::MAX
    &&& 8 * height <= isize::MAX
}

/// Whether a `width` x `height` grid can be resampled to `new_width` x
/// `new_height` on this machine.
pub fn can_resample(width: u32, height: u32, new_width: u32, new_height: u32) -> (fits: bool)
    ensures
        fits == resample_fits(width as nat, height as nat, new_width as nat, new_height as nat),
{
    if new_width > LARGEST_TARGET || new_height > LARGEST_TARGET {
        return false;
    }
    assert(16 * (width as nat) * (new_height as nat) == 16 * (width as int) * (new_height as int)
        && 16 * (width as int) * (new_height as int) <= 16 * 0xffff_ffff * 28) by (nonlinear_arith)
        requires
            0 <= width <= 0xffff_ffff,
            0 <= new_height <= 28,
    ;
    let limit: u64 = isize::MAX as u64;
    let working: u64 = 16 * (width as u64) * (new_height as u64);
    working <= limit && 8 * (width as u64) <= limit && 8 * (height as u64) <= limit
}

/// Resamples a `width` x `height` grid to `new_width` x `new_height` with
/// `image::imageops::resize` and its Lanczos filter of window 3.
///
/// Trusted, not proved. The contract claims of `resize`:
/// - the result has one value for each pixel of the new size;
/// - a grid which already has that size comes back as a copy;
/// - a grid that is black throughout stays black: each value of the result
///   is a sum of pixels times weights, rounded.
///
/// Nothing else is claimed of the values of a grid that is resampled: the
/// filter is computed in floating point through the platform's sine, so the
/// outcome is not fixed across machines.
///
/// `resize` panics if a buffer it allocates would take more bytes than a
/// vector can hold, and if the weights of a sample add up to zero, which
/// rounding can bring about for a large target. `resample_fits` leaves
/// both out.
#[verifier::external_body]
pub(crate) fn lanczos3_resize(
    pixels: &Vec<u8>,
    width: u32,
    height: u32,
    new_width: u32,
    new_height: u32,
) -> (out: Vec<u8>)
    requires
        width > 0,
        height > 0,
        pixels@.len() == width * height,
        resample_fits(width as nat, height as nat, new_width as nat, new_height as nat),
    ensures
        out@.len() == new_width * new_height,
        new_width == width && new_height == height ==> out@ == pixels@,
        all_black(pixels@) ==> all_black(out@),
{
    let source = ImageBuffer::<Luma<u8>, &[u8]>::from_raw(width, height, pixels.as_slice()).unwrap();
    resize(&source, new_width, new_height, FilterType::Lanczos3).into_raw()
}

} // verus!
