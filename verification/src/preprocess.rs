//! From a brightness grid to the tensor the network reads: resample to
//! 28 x 28, threshold halfway between the darkest and the brightest pixel,
//! reduce to two levels, refuse an image without foreground, then invert
//! and lay out as 1 x 1 x 28 x 28.

use vstd::prelude::*;
use crate::error::PipelineError;
use crate::grid::IntensityGrid;
use crate::resample::{all_black, lanczos3_resize, resample_fits};

verus! {

/// The side of the network's square input.
pub const SIDE: u32 = 28;

/// The number of values in the network's input, `SIDE * SIDE`.
pub const TENSOR_LEN: usize = 784;

/// The threshold of an image whose pixels are all equally bright.
pub const FALLBACK_THRESHOLD: u8 = 50;

/// The level of a foreground pixel after binarization.
pub const FOREGROUND: u8 = 255;

/// The level of a background pixel after binarization.
pub const BACKGROUND: u8 = 0;

/// The least brightness in `s`, or 0 if `s` is empty.
pub open spec fn min_level(s: Seq<u8>) -> u8
    decreases s.len(),
{
    if s.len() == 0 {
        0
    } else if s.len() == 1 {
        s[0]
    } else if s.last() < min_level(s.drop_last()) {
        s.last()
    } else {
        min_level(s.drop_last())
    }
}

/// The greatest brightness in `s`, or 0 if `s` is empty.
pub open spec fn max_level(s: Seq<u8>) -> u8
    decreases s.len(),
{
    if s.len() == 0 {
        0
    } else if s.len() == 1 {
        s[0]
    } else if s.last() > max_level(s.drop_last()) {
        s.last()
    } else {
        max_level(s.drop_last())
    }
}

/// The adaptive threshold of `s`: halfway from the darkest to the brightest
/// pixel, rounded down, or `FALLBACK_THRESHOLD` where they are equal.
pub open spec fn threshold_of(s: Seq<u8>) -> u8 {
    let lo = min_level(s);
    let hi = max_level(s);
    if hi > lo {
        (lo + (hi - lo) / 2) as u8
    } else {
        FALLBACK_THRESHOLD
    }
}

/// One pixel reduced to two levels: foreground if strictly brighter than
/// the threshold, background otherwise.
pub open spec fn binarize_level(level: u8, threshold: u8) -> u8 {
    if level > threshold {
        FOREGROUND
    } else {
        BACKGROUND
    }
}

/// Every pixel of `s` reduced to two levels.
pub open spec fn binarized(s: Seq<u8>, threshold: u8) -> Seq<u8> {
    Seq::new(s.len(), |i: int| binarize_level(s[i], threshold))
}

/// The number of pixels of `s` that are not background.
pub open spec fn foreground_count(s: Seq<u8>) -> nat
    decreases s.len(),
{
    if s.len() == 0 {
        0
    } else {
        foreground_count(s.drop_last()) + if s.last() > BACKGROUND {
            1nat
        } else {
            0nat
        }
    }
}

/// Whether a level is one of the two that binarization leaves.
pub open spec fn is_binary(level: u8) -> bool {
    level == BACKGROUND || level == FOREGROUND
}

/// One binarized pixel scaled to the unit range and inverted:
/// `1 - level / 255`, which is 1 for background and 0 for foreground.
pub open spec fn normalize_level(level: u8) -> u8
    recommends
        is_binary(level),
{
    (1 - level as int / 255) as u8
}

/// Every pixel of `s` scaled and inverted.
pub open spec fn normalized(s: Seq<u8>) -> Seq<u8> {
    Seq::new(s.len(), |i: int| normalize_level(s[i]))
}

/// The value at row `y`, column `x` of the tensor laid out from `values`:
/// the entry at `y * SIDE + x`, or 0 where `values` has no such entry.
pub open spec fn tensor_cell(values: Seq<u8>, y: int, x: int) -> u8 {
    let index = y * SIDE as int + x;
    if 0 <= index < values.len() {
        values[index]
    } else {
        0
    }
}

/// The `TENSOR_LEN` values of the tensor laid out from `values`, row by row.
pub open spec fn tensor_layout(values: Seq<u8>) -> Seq<u8> {
    Seq::new(TENSOR_LEN as nat, |k: int| tensor_cell(values, k / SIDE as int, k % SIDE as int))
}

/// What the steps after resampling make of a resampled image: the tensor's
/// values, or `EmptyCanvas` where no pixel is foreground.
pub open spec fn normalized_tensor(resampled: Seq<u8>) -> Result<Seq<u8>, PipelineError> {
    let levels = binarized(resampled, threshold_of(resampled));
    if foreground_count(levels) == 0 {
        Err(PipelineError::EmptyCanvas)
    } else {
        Ok(tensor_layout(normalized(levels)))
    }
}

/// `min_level` is a lower bound that some pixel attains.
pub proof fn lemma_min_level(s: Seq<u8>)
    requires
        s.len() > 0,
    ensures
        forall|i: int| 0 <= i < s.len() ==> min_level(s) <= s[i],
        exists|i: int| 0 <= i < s.len() && s[i] == min_level(s),
    decreases s.len(),
{
    if s.len() == 1 {
        assert(s[0] == min_level(s));
    } else {
        let front = s.drop_last();
        lemma_min_level(front);
        let w = choose|i: int| 0 <= i < front.len() && front[i] == min_level(front);
        assert(s[w] == front[w]);
        assert forall|i: int| 0 <= i < s.len() implies min_level(s) <= s[i] by {
            if i < front.len() {
                assert(s[i] == front[i]);
            }
        }
        if s.last() < min_level(front) {
            assert(s[s.len() - 1] == min_level(s));
        } else {
            assert(s[w] == min_level(s));
        }
    }
}

/// `max_level` is an upper bound that some pixel attains.
pub proof fn lemma_max_level(s: Seq<u8>)
    requires
        s.len() > 0,
    ensures
        forall|i: int| 0 <= i < s.len() ==> s[i] <= max_level(s),
        exists|i: int| 0 <= i < s.len() && s[i] == max_level(s),
    decreases s.len(),
{
    if s.len() == 1 {
        assert(s[0] == max_level(s));
    } else {
        let front = s.drop_last();
        lemma_max_level(front);
        let w = choose|i: int| 0 <= i < front.len() && front[i] == max_level(front);
        assert(s[w] == front[w]);
        assert forall|i: int| 0 <= i < s.len() implies s[i] <= max_level(s) by {
            if i < front.len() {
                assert(s[i] == front[i]);
            }
        }
        if s.last() > max_level(front) {
            assert(s[s.len() - 1] == max_level(s));
        } else {
            assert(s[w] == max_level(s));
        }
    }
}

/// The darkest and the brightest level of `pixels`, both 0 if there are none.
pub fn level_range(pixels: &Vec<u8>) -> (range: (u8, u8))
    ensures
        range.0 == min_level(pixels@),
        range.1 == max_level(pixels@),
{
    if pixels.len() == 0 {
        return (0, 0);
    }
    let mut lo: u8 = pixels[0];
    let mut hi: u8 = pixels[0];
    let mut i: usize = 1;
    assert(pixels@.take(1).len() == 1);
    while i < pixels.len()
        invariant
            1 <= i <= pixels.len(),
            lo == min_level(pixels@.take(i as int)),
            hi == max_level(pixels@.take(i as int)),
        decreases pixels.len() - i,
    {
        let level: u8 = pixels[i];
        proof {
            let next = pixels@.take(i + 1);
            assert(next.drop_last() =~= pixels@.take(i as int));
            assert(next.last() == level);
        }
        if level < lo {
            lo = level;
        }
        if level > hi {
            hi = level;
        }
        i = i + 1;
    }
    assert(pixels@.take(pixels.len() as int) =~= pixels@);
    (lo, hi)
}

/// Computes the adaptive threshold of `pixels`.
pub fn adaptive_threshold(pixels: &Vec<u8>) -> (threshold: u8)
    ensures
        threshold == threshold_of(pixels@),
{
    let (lo, hi) = level_range(pixels);
    if hi > lo {
        lo + (hi - lo) / 2
    } else {
        FALLBACK_THRESHOLD
    }
}

/// Reduces every pixel to foreground or background.
pub fn binarize(pixels: &Vec<u8>, threshold: u8) -> (levels: Vec<u8>)
    ensures
        levels@ == binarized(pixels@, threshold),
{
    let mut levels: Vec<u8> = Vec::with_capacity(pixels.len());
    let mut i: usize = 0;
    while i < pixels.len()
        invariant
            i <= pixels.len(),
            levels@.len() == i,
            forall|k: int| 0 <= k < i ==> levels@[k] == binarize_level(pixels@[k], threshold),
        decreases pixels.len() - i,
    {
        if pixels[i] > threshold {
            levels.push(FOREGROUND);
        } else {
            levels.push(BACKGROUND);
        }
        i = i + 1;
    }
    assert(levels@ =~= binarized(pixels@, threshold));
    levels
}

/// Counts the pixels that are not background.
pub fn count_foreground(levels: &Vec<u8>) -> (count: usize)
    ensures
        count == foreground_count(levels@),
{
    let mut count: usize = 0;
    let mut i: usize = 0;
    assert(levels@.take(0) =~= Seq::<u8>::empty());
    while i < levels.len()
        invariant
            i <= levels.len(),
            count <= i,
            count == foreground_count(levels@.take(i as int)),
        decreases levels.len() - i,
    {
        proof {
            let next = levels@.take(i + 1);
            assert(next.drop_last() =~= levels@.take(i as int));
            assert(next.last() == levels@[i as int]);
        }
        if levels[i] > BACKGROUND {
            count = count + 1;
        }
        i = i + 1;
    }
    assert(levels@.take(levels.len() as int) =~= levels@);
    count
}

/// Scales every binarized pixel to the unit range and inverts it.
pub fn normalize(levels: &Vec<u8>) -> (values: Vec<u8>)
    requires
        forall|k: int| 0 <= k < levels@.len() ==> is_binary(#[trigger] levels@[k]),
    ensures
        values@ == normalized(levels@),
        forall|k: int| 0 <= k < values@.len() ==> values@[k] <= 1,
{
    let mut values: Vec<u8> = Vec::with_capacity(levels.len());
    let mut i: usize = 0;
    while i < levels.len()
        invariant
            i <= levels.len(),
            values@.len() == i,
            forall|k: int| 0 <= k < i ==> values@[k] == normalize_level(levels@[k]),
            forall|k: int| 0 <= k < i ==> values@[k] <= 1,
        decreases levels.len() - i,
    {
        let value: u8 = 1 - levels[i] / 255;
        values.push(value);
        i = i + 1;
    }
    assert(values@ =~= normalized(levels@));
    values
}

/// The network's input: `TENSOR_LEN` values, each 0 or 1, laid out as
/// 1 x 1 x `SIDE` x `SIDE` with the row index before the column index.
/// A pixel at or below the threshold reads 1, a pixel above it 0.
#[derive(Debug, PartialEq, Eq)]
pub struct NormalizedTensor {
    values: Vec<u8>,
}

impl View for NormalizedTensor {
    type V = Seq<u8>;

    /// The values row by row.
    closed spec fn view(&self) -> Seq<u8> {
        self.values@
    }
}

/// Whether `values` are the values of a tensor: `TENSOR_LEN` of them, each
/// 0 or 1.
pub open spec fn is_tensor(values: Seq<u8>) -> bool {
    &&& values.len() == TENSOR_LEN
    &&& forall|k: int| 0 <= k < values.len() ==> values[k] <= 1
}

impl NormalizedTensor {
    #[verifier::type_invariant]
    spec fn well_formed(self) -> bool {
        is_tensor(self.values@)
    }

    /// Lays normalized values out in the tensor's fixed shape. A cell whose
    /// index `values` does not reach is 0.
    pub fn from_normalized(values: &Vec<u8>) -> (tensor: NormalizedTensor)
        requires
            forall|k: int| 0 <= k < values@.len() ==> values@[k] <= 1,
        ensures
            tensor@ == tensor_layout(values@),
            is_tensor(tensor@),
    {
        let mut cells: Vec<u8> = Vec::with_capacity(TENSOR_LEN);
        let mut y: usize = 0;
        while y < 28
            invariant
                y <= 28,
                cells@.len() == y * 28,
                forall|k: int| 0 <= k < cells@.len() ==> cells@[k] == tensor_layout(values@)[k],
                forall|k: int| 0 <= k < cells@.len() ==> cells@[k] <= 1,
                forall|k: int| 0 <= k < values@.len() ==> values@[k] <= 1,
            decreases 28 - y,
        {
            let mut x: usize = 0;
            while x < 28
                invariant
                    y < 28,
                    x <= 28,
                    cells@.len() == y * 28 + x,
                    forall|k: int| 0 <= k < cells@.len() ==> cells@[k] == tensor_layout(values@)[k],
                    forall|k: int| 0 <= k < cells@.len() ==> cells@[k] <= 1,
                    forall|k: int| 0 <= k < values@.len() ==> values@[k] <= 1,
                decreases 28 - x,
            {
                let index: usize = y * 28 + x;
                let cell: u8 = if index < values.len() {
                    values[index]
                } else {
                    0
                };
                proof {
                    let k: int = index as int;
                    assert(k / 28 == y && k % 28 == x);
                    assert(tensor_layout(values@)[k] == tensor_cell(values@, k / 28, k % 28));
                    assert(cell == tensor_layout(values@)[k]);
                }
                cells.push(cell);
                x = x + 1;
            }
            y = y + 1;
        }
        assert(cells@ =~= tensor_layout(values@));
        NormalizedTensor { values: cells }
    }

    /// The tensor's shape: batch, channels, rows, columns.
    pub fn shape(&self) -> (dims: (usize, usize, usize, usize))
        ensures
            dims == (1usize, 1usize, 28usize, 28usize),
            dims.0 * dims.1 * dims.2 * dims.3 == self@.len(),
    {
        proof {
            use_type_invariant(self);
        }
        (1, 1, 28, 28)
    }

    /// The values row by row.
    pub fn values(&self) -> (values: &Vec<u8>)
        ensures
            values@ == self@,
            is_tensor(self@),
    {
        proof {
            use_type_invariant(self);
        }
        &self.values
    }

    /// The value at row `y`, column `x`; 0 outside the tensor.
    pub fn at(&self, y: usize, x: usize) -> (value: u8)
        ensures
            is_tensor(self@),
            y < 28 && x < 28 ==> value == self@[y * 28 + x],
            !(y < 28 && x < 28) ==> value == 0,
            value <= 1,
    {
        proof {
            use_type_invariant(self);
        }
        if y < 28 && x < 28 {
            self.values[y * 28 + x]
        } else {
            0
        }
    }
}

/// The values of the tensor that a result holds, if it holds one.
pub open spec fn tensor_values(r: Result<NormalizedTensor, PipelineError>) -> Result<Seq<u8>, PipelineError> {
    match r {
        Ok(tensor) => Ok(tensor@),
        Err(e) => Err(e),
    }
}

/// The steps after resampling: threshold, binarize, refuse an image without
/// foreground, normalize and lay out.
pub fn preprocess_resampled(resampled: &Vec<u8>) -> (r: Result<NormalizedTensor, PipelineError>)
    ensures
        tensor_values(r) == normalized_tensor(resampled@),
        r is Ok ==> is_tensor(r->Ok_0@),
{
    let threshold: u8 = adaptive_threshold(resampled);
    let levels: Vec<u8> = binarize(resampled, threshold);
    if count_foreground(&levels) == 0 {
        return Err(PipelineError::EmptyCanvas);
    }
    assert forall|k: int| 0 <= k < levels@.len() implies is_binary(#[trigger] levels@[k]) by {
        assert(levels@[k] == binarize_level(resampled@[k], threshold));
    }
    let values: Vec<u8> = normalize(&levels);
    Ok(NormalizedTensor::from_normalized(&values))
}

/// Which grids can be preprocessed: on every machine those up to 4 793 490
/// pixels wide and 268 435 455 high, and every grid where an address has 64
/// bits.
pub proof fn lemma_sizes_that_fit(width: u32, height: u32)
    ensures
        width <= 4_793_490 && height <= 268_435_455 ==> resample_fits(
            width as nat,
            height as nat,
            SIDE as nat,
            SIDE as nat,
        ),
        isize::MAX >= 0x7fff_ffff_ffff_ffff ==> resample_fits(
            width as nat,
            height as nat,
            SIDE as nat,
            SIDE as nat,
        ),
{
    assert(16 * (width as nat) * (SIDE as nat) == 448 * width) by (nonlinear_arith);
    assert((SIDE as nat) * (SIDE as nat) == 784) by (nonlinear_arith);
    assert(isize::MAX >= 0x7fff_ffff);
}

/// Whether `resampled` may be what resampling makes of a `cols` x `rows`
/// grid with the given pixels: an image of `TENSOR_LEN` pixels, the grid
/// itself if it is already `SIDE` x `SIDE`, and black if the grid is.
pub open spec fn may_resample_to(pixels: Seq<u8>, cols: nat, rows: nat, resampled: Seq<u8>) -> bool {
    &&& resampled.len() == TENSOR_LEN
    &&& cols == SIDE && rows == SIDE ==> resampled == pixels
    &&& all_black(pixels) ==> all_black(resampled)
}

/// Whether `r` is what preprocessing may make of a `cols` x `rows` grid with
/// the given pixels: the outcome of the steps after resampling, applied to
/// an image that resampling may make of the grid.
pub open spec fn preprocessed(pixels: Seq<u8>, cols: nat, rows: nat, r: Result<Seq<u8>, PipelineError>) -> bool {
    exists|resampled: Seq<u8>| #[trigger]
        may_resample_to(pixels, cols, rows, resampled) && r == normalized_tensor(resampled)
}

/// Whatever the grid and whatever the resampler makes of it, what
/// preprocessing comes to is `EmptyCanvas` or exactly `TENSOR_LEN` values,
/// each 0 or 1.
pub proof fn lemma_preprocessed_tensor_or_empty_canvas(
    pixels: Seq<u8>,
    cols: nat,
    rows: nat,
    r: Result<Seq<u8>, PipelineError>,
)
    requires
        preprocessed(pixels, cols, rows, r),
    ensures
        match r {
            Ok(values) => is_tensor(values),
            Err(e) => e == PipelineError::EmptyCanvas,
        },
{
    let resampled = choose|resampled: Seq<u8>| #[trigger]
        may_resample_to(pixels, cols, rows, resampled) && r == normalized_tensor(resampled);
    lemma_tensor_or_empty_canvas(resampled);
}

/// Preprocessing a grid that is already `SIDE` x `SIDE` comes to the steps
/// after resampling, applied to the grid itself.
pub proof fn lemma_preprocessed_at_input_size(pixels: Seq<u8>, r: Result<Seq<u8>, PipelineError>)
    requires
        preprocessed(pixels, SIDE as nat, SIDE as nat, r),
    ensures
        r == normalized_tensor(pixels),
{
    let resampled = choose|resampled: Seq<u8>| #[trigger]
        may_resample_to(pixels, SIDE as nat, SIDE as nat, resampled) && r == normalized_tensor(resampled);
    assert(resampled == pixels);
}

/// A grid of any size that is black throughout is an empty canvas.
pub proof fn lemma_black_grid_is_empty_canvas(
    pixels: Seq<u8>,
    cols: nat,
    rows: nat,
    r: Result<Seq<u8>, PipelineError>,
)
    requires
        all_black(pixels),
        preprocessed(pixels, cols, rows, r),
    ensures
        r == Err::<Seq<u8>, _>(PipelineError::EmptyCanvas),
{
    let resampled = choose|resampled: Seq<u8>| #[trigger]
        may_resample_to(pixels, cols, rows, resampled) && r == normalized_tensor(resampled);
    lemma_uniform_image(resampled, 0);
}

/// Turns a brightness grid of any size into the network's input, or fails
/// with `EmptyCanvas` where the resampled image has no foreground.
///
/// A grid that is already `SIDE` x `SIDE` is taken as it is; of any other
/// grid the resampled image is what the resampler made of it, black if the
/// grid is black. The grid must
/// be one that the resampler can take on this machine, which
/// `lemma_sizes_that_fit` shows to be every grid where an address has 64
/// bits.
pub fn preprocess(grid: &IntensityGrid) -> (r: Result<NormalizedTensor, PipelineError>)
    requires
        resample_fits(grid.cols(), grid.rows(), SIDE as nat, SIDE as nat),
    ensures
        preprocessed(grid@, grid.cols(), grid.rows(), tensor_values(r)),
        r is Ok ==> is_tensor(r->Ok_0@),
        r is Err ==> r->Err_0 == PipelineError::EmptyCanvas,
{
    let width: u32 = grid.width();
    let height: u32 = grid.height();
    let resampled: Vec<u8> = lanczos3_resize(grid.pixels(), width, height, SIDE, SIDE);
    let r = preprocess_resampled(&resampled);
    proof {
        assert(may_resample_to(grid@, grid.cols(), grid.rows(), resampled@));
        lemma_tensor_or_empty_canvas(resampled@);
    }
    r
}

/// No pixel counts as foreground exactly when every pixel is background.
pub proof fn lemma_foreground_count_zero(s: Seq<u8>)
    ensures
        foreground_count(s) == 0 <==> forall|i: int| 0 <= i < s.len() ==> s[i] == BACKGROUND,
    decreases s.len(),
{
    if s.len() > 0 {
        let front = s.drop_last();
        lemma_foreground_count_zero(front);
        if foreground_count(s) == 0 {
            assert forall|i: int| 0 <= i < s.len() implies s[i] == BACKGROUND by {
                if i < front.len() {
                    assert(s[i] == front[i]);
                }
            }
        }
        if forall|i: int| 0 <= i < s.len() ==> s[i] == BACKGROUND {
            assert(s.last() == BACKGROUND);
            assert forall|i: int| 0 <= i < front.len() implies front[i] == BACKGROUND by {
                assert(front[i] == s[i]);
            }
        }
    }
}

/// Whatever the resampled image, preprocessing either fails with
/// `EmptyCanvas` or yields exactly `TENSOR_LEN` values, each 0 or 1.
pub proof fn lemma_tensor_or_empty_canvas(resampled: Seq<u8>)
    ensures
        match normalized_tensor(resampled) {
            Ok(values) => is_tensor(values),
            Err(e) => e == PipelineError::EmptyCanvas,
        },
{
    let levels = binarized(resampled, threshold_of(resampled));
    let values = tensor_layout(normalized(levels));
    assert forall|k: int| 0 <= k < values.len() implies values[k] <= 1 by {
        let index = (k / 28) * 28 + k % 28;
        if 0 <= index < normalized(levels).len() {
            assert(normalized(levels)[index] == normalize_level(levels[index]));
        }
    }
}

/// Raising a pixel's brightness never turns it from foreground to
/// background, whatever the threshold: the binarized level does not fall,
/// and the normalized value, which is inverted, does not rise. A pixel
/// raised from at or below the threshold to above it goes from background
/// to foreground, its normalized value from 1 to 0.
pub proof fn lemma_brighter_stays_foreground(darker: u8, brighter: u8, threshold: u8)
    requires
        darker <= brighter,
    ensures
        binarize_level(darker, threshold) <= binarize_level(brighter, threshold),
        normalize_level(binarize_level(brighter, threshold)) <= normalize_level(
            binarize_level(darker, threshold),
        ),
        darker <= threshold < brighter ==> {
            &&& binarize_level(darker, threshold) == BACKGROUND
            &&& binarize_level(brighter, threshold) == FOREGROUND
            &&& normalize_level(binarize_level(darker, threshold)) == 1
            &&& normalize_level(binarize_level(brighter, threshold)) == 0
        },
{
}

/// In an image with contrast the threshold lies at or above the darkest
/// level and strictly below the brightest, so some pixel is foreground and
/// preprocessing succeeds.
pub proof fn lemma_contrast_has_foreground(resampled: Seq<u8>)
    requires
        max_level(resampled) > min_level(resampled),
    ensures
        min_level(resampled) <= threshold_of(resampled) < max_level(resampled),
        normalized_tensor(resampled) is Ok,
{
    assert(resampled.len() > 0);
    lemma_max_level(resampled);
    let threshold = threshold_of(resampled);
    let levels = binarized(resampled, threshold);
    let w = choose|i: int| 0 <= i < resampled.len() && resampled[i] == max_level(resampled);
    assert(levels[w] == FOREGROUND);
    lemma_foreground_count_zero(levels);
}

/// Preprocessing fails exactly on an image without contrast whose level is
/// at most `FALLBACK_THRESHOLD`; an image without pixels is one.
pub proof fn lemma_empty_canvas_iff(resampled: Seq<u8>)
    ensures
        normalized_tensor(resampled) is Err <==> max_level(resampled) == min_level(resampled)
            && max_level(resampled) <= FALLBACK_THRESHOLD,
{
    let levels = binarized(resampled, threshold_of(resampled));
    lemma_foreground_count_zero(levels);
    if resampled.len() > 0 {
        lemma_max_level(resampled);
        lemma_min_level(resampled);
        if max_level(resampled) > min_level(resampled) {
            lemma_contrast_has_foreground(resampled);
        } else {
            let w = choose|i: int| 0 <= i < resampled.len() && resampled[i] == max_level(resampled);
            assert(levels[w] == binarize_level(resampled[w], FALLBACK_THRESHOLD));
            if max_level(resampled) <= FALLBACK_THRESHOLD {
                assert forall|i: int| 0 <= i < levels.len() implies levels[i] == BACKGROUND by {
                    assert(levels[i] == binarize_level(resampled[i], FALLBACK_THRESHOLD));
                }
            }
        }
    }
}

/// An image whose pixels are all at one level is an empty canvas if that
/// level is at most `FALLBACK_THRESHOLD`; above it every pixel is
/// foreground and the tensor is all zero.
pub proof fn lemma_uniform_image(resampled: Seq<u8>, level: u8)
    requires
        resampled.len() > 0,
        forall|i: int| 0 <= i < resampled.len() ==> resampled[i] == level,
    ensures
        level <= FALLBACK_THRESHOLD ==> normalized_tensor(resampled) == Err::<Seq<u8>, _>(
            PipelineError::EmptyCanvas,
        ),
        level > FALLBACK_THRESHOLD ==> normalized_tensor(resampled) == Ok::<_, PipelineError>(
            Seq::new(TENSOR_LEN as nat, |k: int| 0u8),
        ),
{
    lemma_max_level(resampled);
    lemma_min_level(resampled);
    assert(max_level(resampled) == level);
    assert(min_level(resampled) == level);
    lemma_empty_canvas_iff(resampled);
    if level > FALLBACK_THRESHOLD {
        let levels = binarized(resampled, threshold_of(resampled));
        let values = tensor_layout(normalized(levels));
        assert forall|k: int| 0 <= k < values.len() implies values[k] == 0 by {
            let index = (k / 28) * 28 + k % 28;
            if 0 <= index < normalized(levels).len() {
                assert(normalized(levels)[index] == normalize_level(levels[index]));
                assert(levels[index] == binarize_level(resampled[index], FALLBACK_THRESHOLD));
            }
        }
        assert(values =~= Seq::new(TENSOR_LEN as nat, |k: int| 0u8));
    }
}

} // verus!
