//! The single-channel brightness grid that every image source is reduced to.

use vstd::prelude::*;
use crate::decode::{decode_luma, DecodedImage};
use crate::error::PipelineError;

verus! {

/// A decoding outcome as plain values: width, height and luminance.
pub open spec fn decoded_parts(decoded: Option<DecodedImage>) -> Option<(u32, u32, Seq<u8>)> {
    match decoded {
        Some(image) => Some((image.width, image.height, image.luma@)),
        None => None,
    }
}

/// Brightness of one RGBA pixel composited over a transparent background:
/// `(alpha / 255) * (r + g + b) / 3`, rounded down.
pub open spec fn gray_level(r: u8, g: u8, b: u8, a: u8) -> int {
    (a as int * (r as int + g as int + b as int)) / 765
}

/// The brightness values of an RGBA byte sequence, one per complete pixel.
pub open spec fn gray_pixels(bytes: Seq<u8>) -> Seq<u8> {
    Seq::new(
        (bytes.len() / 4) as nat,
        |i: int| gray_level(bytes[4 * i], bytes[4 * i + 1], bytes[4 * i + 2], bytes[4 * i + 3]) as u8,
    )
}

/// `gray_level` always fits in a byte, and a fully transparent pixel is black.
pub proof fn lemma_gray_level_bounds(r: u8, g: u8, b: u8, a: u8)
    ensures
        0 <= gray_level(r, g, b, a) <= 255,
        a == 0 ==> gray_level(r, g, b, a) == 0,
        a == 255 ==> gray_level(r, g, b, a) == (r + g + b) / 3,
{
    let sum: int = r as int + g as int + b as int;
    assert(0 <= a as int * sum <= 255 * 765) by (nonlinear_arith)
        requires
            0 <= a <= 255,
            0 <= sum <= 765,
    ;
    if a == 255 {
        assert((255 * sum) / 765 == sum / 3) by (nonlinear_arith)
            requires
                0 <= sum,
        ;
    }
}

/// A capture whose pixels are all fully transparent (every fourth byte, the
/// alpha, is 0) converts to brightness 0 throughout, whatever its colour
/// bytes hold.
pub proof fn lemma_transparent_is_black(bytes: Seq<u8>)
    requires
        forall|j: int| 0 <= j < bytes.len() && j % 4 == 3 ==> bytes[j] == 0,
    ensures
        gray_pixels(bytes).len() == bytes.len() / 4,
        forall|k: int| 0 <= k < gray_pixels(bytes).len() ==> gray_pixels(bytes)[k] == 0,
{
    assert forall|k: int| 0 <= k < gray_pixels(bytes).len() implies gray_pixels(bytes)[k] == 0 by {
        assert((4 * k + 3) % 4 == 3);
        assert(bytes[4 * k + 3] == 0);
        lemma_gray_level_bounds(bytes[4 * k], bytes[4 * k + 1], bytes[4 * k + 2], 0);
    }
}

/// Computes `gray_level` for one pixel.
pub fn gray(r: u8, g: u8, b: u8, a: u8) -> (level: u8)
    ensures
        level as int == gray_level(r, g, b, a),
{
    let sum: u32 = r as u32 + g as u32 + b as u32;
    proof {
        lemma_gray_level_bounds(r, g, b, a);
        assert(a as int * sum as int <= 255 * 765) by (nonlinear_arith)
            requires
                a <= 255,
                sum <= 765,
        ;
    }
    let scaled: u32 = (a as u32) * sum;
    let level: u32 = scaled / 765;
    level as u8
}

/// A `width` x `height` grid of brightness values, 0 black to 255 white,
/// row-major with the origin at the top left.
#[derive(Debug, PartialEq, Eq)]
pub struct IntensityGrid {
    width: u32,
    height: u32,
    data: Vec<u8>,
}

impl View for IntensityGrid {
    type V = Seq<u8>;

    /// The pixels in row-major order.
    closed spec fn view(&self) -> Seq<u8> {
        self.data@
    }
}

impl IntensityGrid {
    /// Every grid has at least one pixel and exactly `cols * rows` of them.
    #[verifier::type_invariant]
    spec fn well_formed(self) -> bool {
        &&& self.width > 0
        &&& self.height > 0
        &&& self.data@.len() == self.width as nat * self.height as nat
    }

    /// The number of columns.
    pub closed spec fn cols(&self) -> nat {
        self.width as nat
    }

    /// The number of rows.
    pub closed spec fn rows(&self) -> nat {
        self.height as nat
    }

    /// What holds of every grid: it is not empty and its pixel count is
    /// `cols * rows`.
    pub open spec fn shape_holds(&self) -> bool {
        &&& self.cols() > 0
        &&& self.rows() > 0
        &&& self@.len() == self.cols() * self.rows()
    }

    /// Whether `r` is the grid made of pixels of the stated dimensions:
    /// pixels whose number is not `width * height` are refused as
    /// `InvalidBufferSize`, and a grid without pixels is an `EmptyCanvas`.
    pub open spec fn made_of(
        r: Result<IntensityGrid, PipelineError>,
        pixels: Seq<u8>,
        width: u32,
        height: u32,
    ) -> bool {
        if pixels.len() != width * height {
            r == Err::<IntensityGrid, _>(PipelineError::InvalidBufferSize)
        } else if width == 0 || height == 0 {
            r == Err::<IntensityGrid, _>(PipelineError::EmptyCanvas)
        } else {
            &&& r is Ok
            &&& r->Ok_0@ == pixels
            &&& r->Ok_0.cols() == width
            &&& r->Ok_0.rows() == height
            &&& r->Ok_0.shape_holds()
        }
    }

    /// Wraps luminance data of the stated dimensions.
    ///
    /// Data whose length is not `width * height` is refused as
    /// `InvalidBufferSize`; a grid without pixels is an `EmptyCanvas`.
    pub fn from_luma(data: Vec<u8>, width: u32, height: u32) -> (r: Result<IntensityGrid, PipelineError>)
        ensures
            Self::made_of(r, data@, width, height),
    {
        let count: u64 = pixel_count(width, height);
        if data.len() as u64 != count {
            return Err(PipelineError::InvalidBufferSize);
        }
        if width == 0 || height == 0 {
            return Err(PipelineError::EmptyCanvas);
        }
        Ok(IntensityGrid { width, height, data })
    }

    /// Whether `r` is the grid made of what decoding came to: width, height
    /// and luminance, or `None` for an image that could not be decoded,
    /// which is a `DecodeFailure`.
    pub open spec fn made_of_decoded(
        r: Result<IntensityGrid, PipelineError>,
        decoded: Option<(u32, u32, Seq<u8>)>,
    ) -> bool {
        match decoded {
            None => r == Err::<IntensityGrid, _>(PipelineError::DecodeFailure),
            Some(image) => Self::made_of(r, image.2, image.0, image.1),
        }
    }

    /// Takes what decoding an image came to, `None` if it could not be
    /// decoded: that is a `DecodeFailure`, and a decoded image becomes the
    /// grid made of its luminance.
    pub fn from_decoded(decoded: Option<DecodedImage>) -> (r: Result<IntensityGrid, PipelineError>)
        ensures
            Self::made_of_decoded(r, decoded_parts(decoded)),
    {
        match decoded {
            None => Err(PipelineError::DecodeFailure),
            Some(image) => IntensityGrid::from_luma(image.luma, image.width, image.height),
        }
    }

    /// Decodes an encoded image, such as the bytes of an image file, and
    /// reduces it to luminance at its own resolution. Whatever the decoder
    /// makes of the bytes, the outcome is what `from_decoded` makes of it:
    /// a grid, or `DecodeFailure` if the bytes cannot be decoded,
    /// `EmptyCanvas` if the image has no pixels, `InvalidBufferSize` if the
    /// decoder's pixels do not match its dimensions.
    pub fn from_encoded(encoded: &[u8]) -> (r: Result<IntensityGrid, PipelineError>)
        ensures
            exists|decoded: Option<(u32, u32, Seq<u8>)>| #[trigger] Self::made_of_decoded(r, decoded),
            r matches Ok(grid) ==> grid.shape_holds(),
            r matches Err(e) ==> e == PipelineError::DecodeFailure || e == PipelineError::EmptyCanvas || e
                == PipelineError::InvalidBufferSize,
    {
        let decoded = decode_luma(encoded);
        let ghost parts = decoded_parts(decoded);
        let r = IntensityGrid::from_decoded(decoded);
        assert(Self::made_of_decoded(r, parts));
        r
    }

    /// Converts an RGBA canvas capture, four bytes per pixel, to brightness.
    ///
    /// A buffer whose length is not `width * height * 4` is refused as
    /// `InvalidBufferSize`; a canvas without pixels is an `EmptyCanvas`.
    pub fn from_rgba(bytes: &[u8], width: u32, height: u32) -> (r: Result<IntensityGrid, PipelineError>)
        ensures
            bytes@.len() != width * height * 4 ==> r == Err::<IntensityGrid, _>(PipelineError::InvalidBufferSize),
            bytes@.len() == width * height * 4 ==> Self::made_of(r, gray_pixels(bytes@), width, height),
    {
        let count: u64 = pixel_count(width, height);
        let len: usize = bytes.len();
        if len % 4 != 0 || (len / 4) as u64 != count {
            return Err(PipelineError::InvalidBufferSize);
        }
        if width == 0 || height == 0 {
            return Err(PipelineError::EmptyCanvas);
        }
        let pixels: usize = len / 4;
        let mut data: Vec<u8> = Vec::with_capacity(pixels);
        let mut i: usize = 0;
        while i < pixels
            invariant
                pixels == len / 4,
                len == bytes@.len(),
                len % 4 == 0,
                i <= pixels,
                data@.len() == i,
                forall|k: int| 0 <= k < i ==> data@[k] == gray_pixels(bytes@)[k],
            decreases pixels - i,
        {
            let level: u8 = gray(bytes[4 * i], bytes[4 * i + 1], bytes[4 * i + 2], bytes[4 * i + 3]);
            data.push(level);
            i = i + 1;
        }
        assert(data@ =~= gray_pixels(bytes@));
        Ok(IntensityGrid { width, height, data })
    }

    /// The number of columns.
    pub fn width(&self) -> (w: u32)
        ensures
            w == self.cols(),
            self.shape_holds(),
    {
        proof {
            use_type_invariant(self);
        }
        self.width
    }

    /// The number of rows.
    pub fn height(&self) -> (h: u32)
        ensures
            h == self.rows(),
            self.shape_holds(),
    {
        proof {
            use_type_invariant(self);
        }
        self.height
    }

    /// The pixels in row-major order.
    pub fn pixels(&self) -> (data: &Vec<u8>)
        ensures
            data@ == self@,
            self.shape_holds(),
    {
        proof {
            use_type_invariant(self);
        }
        &self.data
    }

    /// The brightness at column `x` of row `y`, if the grid has such a pixel.
    pub fn get(&self, x: u32, y: u32) -> (level: Option<u8>)
        ensures
            self.shape_holds(),
            x < self.cols() && y < self.rows() ==> level == Some(self@[y * self.cols() + x]),
            !(x < self.cols() && y < self.rows()) ==> level is None,
    {
        proof {
            use_type_invariant(self);
        }
        if x < self.width && y < self.height {
            // The length of the pixels, which fits in `usize`, bounds the index.
            let _len: usize = self.data.len();
            proof {
                lemma_cell_in_range(x as int, y as int, self.width as int, self.height as int);
                assert(0 <= y as int * self.width as int) by (nonlinear_arith);
            }
            let index: usize = (y as usize) * (self.width as usize) + (x as usize);
            Some(self.data[index])
        } else {
            None
        }
    }
}

/// The number of pixels of a `width` x `height` image.
fn pixel_count(width: u32, height: u32) -> (count: u64)
    ensures
        count == width * height,
{
    assert(width as int * height as int <= 0xffff_ffff * 0xffff_ffff) by (nonlinear_arith)
        requires
            0 <= width <= 0xffff_ffff,
            0 <= height <= 0xffff_ffff,
    ;
    (width as u64) * (height as u64)
}

/// A cell inside a grid has a row-major index below the pixel count.
pub proof fn lemma_cell_in_range(x: int, y: int, width: int, height: int)
    requires
        0 <= x < width,
        0 <= y < height,
    ensures
        0 <= y * width + x < width * height,
{
    assert(y * width + x < width * height) by (nonlinear_arith)
        requires
            0 <= x < width,
            0 <= y < height,
    ;
    assert(0 <= y * width) by (nonlinear_arith)
        requires
            0 <= y,
            0 <= width,
    ;
}

} // verus!
