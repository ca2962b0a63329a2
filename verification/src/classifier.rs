//! The classification session: it owns the model handle, decides what the
//! host has to do next, and turns what the host reports back into a digit.
//!
//! Loading the model and running it are the host's work. The session answers
//! each request and each report with the next `Action`; the host performs
//! it and reports back.

use vstd::prelude::*;
use crate::error::PipelineError;
use crate::grid::{gray_pixels, lemma_transparent_is_black, IntensityGrid};
use crate::preprocess::{
    is_tensor, lemma_black_grid_is_empty_canvas, lemma_preprocessed_at_input_size,
    lemma_uniform_image, preprocess, preprocessed, tensor_values, NormalizedTensor,
    FALLBACK_THRESHOLD, SIDE, TENSOR_LEN,
};
use crate::resample::{can_resample, resample_fits};
use crate::scores::{extract, scan_winner, scores_from_bits, scores_of, CLASSES};

verus! {

/// Whether a grid of this size can be preprocessed on this machine: what
/// `preprocess` and a session's requests on a grid ask of their input.
pub fn fits_resampler(width: u32, height: u32) -> (fits: bool)
    ensures
        fits == resample_fits(width as nat, height as nat, SIDE as nat, SIDE as nat),
{
    can_resample(width, height, SIDE, SIDE)
}

/// What `prepare_canvas` and a session's requests on a capture ask of their
/// input: a capture that gets as far as resampling can be resampled on this
/// machine. A capture that is refused before that, for its length or for
/// want of pixels, is always in reach.
pub open spec fn capture_in_reach(len: nat, width: u32, height: u32) -> bool {
    len == width * height * 4 && width > 0 && height > 0 ==> resample_fits(
        width as nat,
        height as nat,
        SIDE as nat,
        SIDE as nat,
    )
}

/// Whether a capture of `len` bytes and the stated size is in reach.
pub fn can_prepare(len: usize, width: u32, height: u32) -> (fits: bool)
    ensures
        fits == capture_in_reach(len as nat, width, height),
{
    if fits_resampler(width, height) {
        return true;
    }
    assert(width as int * height as int <= 0xffff_ffff * 0xffff_ffff) by (nonlinear_arith)
        requires
            0 <= width <= 0xffff_ffff,
            0 <= height <= 0xffff_ffff,
    ;
    let expected: u128 = 4 * ((width as u128) * (height as u128));
    !(len as u128 == expected && width > 0 && height > 0)
}

/// Whether `r` is what preparation may make of an RGBA capture: a buffer of
/// the wrong length is an `InvalidBufferSize`, a capture without pixels an
/// `EmptyCanvas`, and any other capture is converted to brightness and
/// preprocessed.
pub open spec fn prepared(bytes: Seq<u8>, width: u32, height: u32, r: Result<Seq<u8>, PipelineError>) -> bool {
    if bytes.len() != width * height * 4 {
        r == Err::<Seq<u8>, _>(PipelineError::InvalidBufferSize)
    } else if width == 0 || height == 0 {
        r == Err::<Seq<u8>, _>(PipelineError::EmptyCanvas)
    } else {
        preprocessed(gray_pixels(bytes), width as nat, height as nat, r)
    }
}

/// Preparing the same capture again comes to the same, wherever the
/// resampler has nothing to do: the capture is refused before resampling,
/// or it already is `SIDE` x `SIDE`.
pub proof fn lemma_prepared_again(
    bytes: Seq<u8>,
    width: u32,
    height: u32,
    first: Result<Seq<u8>, PipelineError>,
    second: Result<Seq<u8>, PipelineError>,
)
    requires
        prepared(bytes, width, height, first),
        prepared(bytes, width, height, second),
        bytes.len() != width * height * 4 || width == 0 || height == 0 || (width == SIDE && height == SIDE),
    ensures
        first == second,
{
    if bytes.len() == width * height * 4 && width > 0 && height > 0 {
        lemma_preprocessed_at_input_size(gray_pixels(bytes), first);
        lemma_preprocessed_at_input_size(gray_pixels(bytes), second);
    }
}

/// A capture of any size whose pixels are all fully transparent (every
/// fourth byte, the alpha, is 0) is an empty canvas, whatever its colour
/// bytes hold. So is a capture that is black throughout.
pub proof fn lemma_transparent_capture_is_empty(
    bytes: Seq<u8>,
    width: u32,
    height: u32,
    r: Result<Seq<u8>, PipelineError>,
)
    requires
        bytes.len() == width * height * 4,
        forall|j: int| 0 <= j < bytes.len() && j % 4 == 3 ==> bytes[j] == 0,
        prepared(bytes, width, height, r),
    ensures
        r == Err::<Seq<u8>, _>(PipelineError::EmptyCanvas),
{
    if width > 0 && height > 0 {
        lemma_transparent_is_black(bytes);
        lemma_black_grid_is_empty_canvas(gray_pixels(bytes), width as nat, height as nat, r);
    }
}

/// A capture of `SIDE` x `SIDE` whose pixels all have one brightness is an
/// empty canvas if that brightness is at most `FALLBACK_THRESHOLD`. A
/// brighter one, such as an opaque white capture, is all foreground, and
/// its tensor is all zero.
pub proof fn lemma_blank_capture(bytes: Seq<u8>, level: u8, r: Result<Seq<u8>, PipelineError>)
    requires
        bytes.len() == SIDE * SIDE * 4,
        forall|k: int| 0 <= k < gray_pixels(bytes).len() ==> gray_pixels(bytes)[k] == level,
        prepared(bytes, SIDE, SIDE, r),
    ensures
        level <= FALLBACK_THRESHOLD ==> r == Err::<Seq<u8>, _>(PipelineError::EmptyCanvas),
        level > FALLBACK_THRESHOLD ==> r == Ok::<_, PipelineError>(Seq::new(TENSOR_LEN as nat, |k: int| 0u8)),
{
    lemma_preprocessed_at_input_size(gray_pixels(bytes), r);
    lemma_uniform_image(gray_pixels(bytes), level);
}

/// Validates an RGBA capture, converts it to brightness and preprocesses
/// it: all that precedes the inference run.
pub fn prepare_canvas(bytes: &[u8], width: u32, height: u32) -> (r: Result<NormalizedTensor, PipelineError>)
    requires
        capture_in_reach(bytes@.len(), width, height),
    ensures
        prepared(bytes@, width, height, tensor_values(r)),
        r is Ok ==> is_tensor(r->Ok_0@),
{
    match IntensityGrid::from_rgba(bytes, width, height) {
        Ok(grid) => preprocess(&grid),
        Err(e) => Err(e),
    }
}

/// The digit that an inference run's outcome stands for. The outcome is
/// `None` if the engine failed, else the bit patterns of the scores it
/// returned. No outcome, or any other number of scores than `CLASSES`, is
/// an `InferenceFailure`; of `CLASSES` scores the one that the scan ends on
/// names the digit, whatever the scores hold.
pub open spec fn digit_of(outcome: Option<Seq<u32>>) -> Result<usize, PipelineError> {
    match outcome {
        None => Err(PipelineError::InferenceFailure),
        Some(bits) => if bits.len() != CLASSES {
            Err(PipelineError::InferenceFailure)
        } else {
            Ok(scan_winner(scores_of(bits)) as usize)
        },
    }
}

/// The bit patterns that an outcome holds, if it holds any.
pub open spec fn outcome_bits(outcome: Option<Vec<u32>>) -> Option<Seq<u32>> {
    match outcome {
        Some(bits) => Some(bits@),
        None => None,
    }
}

/// Reads the digit off an inference run's outcome: all that follows the
/// inference run.
pub fn conclude(outcome: Option<Vec<u32>>) -> (r: Result<usize, PipelineError>)
    ensures
        r == digit_of(outcome_bits(outcome)),
        r is Ok ==> r->Ok_0 < CLASSES,
{
    match outcome {
        None => Err(PipelineError::InferenceFailure),
        Some(bits) => {
            if bits.len() != CLASSES {
                return Err(PipelineError::InferenceFailure);
            }
            let scores: Vec<Option<i32>> = scores_from_bits(&bits);
            extract(&scores)
        },
    }
}

/// What the host has to do next.
#[derive(Debug, PartialEq, Eq)]
pub enum Action {
    /// Load the model and report with `model_loaded`.
    LoadModel,
    /// Run the model on this tensor and report with `inference_finished`.
    RunInference(NormalizedTensor),
    /// The request is answered: show this digit.
    Report(usize),
    /// The request has failed: show this error.
    Fail(PipelineError),
}

impl Action {
    /// What preparation came to, where the action ends preparation: the
    /// tensor's values for `RunInference`, the error for `Fail`.
    pub open spec fn outcome(self) -> Option<Result<Seq<u8>, PipelineError>> {
        match self {
            Action::RunInference(tensor) => Some(Ok(tensor@)),
            Action::Fail(e) => Some(Err(e)),
            _ => None,
        }
    }

    /// Whether a tensor that the action carries is one: every action that a
    /// session hands out is.
    pub open spec fn sound(self) -> bool {
        self matches Action::RunInference(tensor) ==> is_tensor(tensor@)
    }
}

/// How a request on an RGBA capture is answered: without a model the model
/// is asked for first; with one, the capture is prepared.
pub open spec fn answers_canvas(ready: bool, bytes: Seq<u8>, width: u32, height: u32, action: Action) -> bool {
    if ready {
        &&& action.outcome() is Some
        &&& prepared(bytes, width, height, action.outcome()->Some_0)
        &&& action.sound()
    } else {
        action == Action::LoadModel
    }
}

/// How a request on a brightness grid is answered: without a model the
/// model is asked for first; with one, the grid is preprocessed.
pub open spec fn answers_grid(ready: bool, pixels: Seq<u8>, cols: nat, rows: nat, action: Action) -> bool {
    if ready {
        &&& action.outcome() is Some
        &&& preprocessed(pixels, cols, rows, action.outcome()->Some_0)
        &&& action.sound()
    } else {
        action == Action::LoadModel
    }
}

/// The action that ends a request once inference has finished.
pub open spec fn verdict(r: Result<usize, PipelineError>) -> Action {
    match r {
        Ok(digit) => Action::Report(digit),
        Err(e) => Action::Fail(e),
    }
}

/// The model handle after a load was reported: a handle that is already
/// there stays, whatever was loaded; else the loaded one, if any, is taken.
pub open spec fn handle_after_load<M>(before: Option<M>, loaded: Option<M>) -> Option<M> {
    if before is Some {
        before
    } else {
        loaded
    }
}

/// The name of the input tensor of the model that `MNIST::new` expects.
pub const DEFAULT_INPUT_NAME: &'static str = "Input3";

/// The name of the output tensor of the model that `MNIST::new` expects.
pub const DEFAULT_OUTPUT_NAME: &'static str = "Plus214_Output_0";

/// A classification session. It keeps the last canvas capture, knows the
/// names of the model's input and output tensors, and owns the model
/// handle, which is absent until the first load succeeds and is never
/// replaced after that.
pub struct MNIST<M> {
    canvas_data: Vec<u8>,
    model: Option<M>,
    width: u32,
    height: u32,
    input_name: String,
    output_name: String,
}

impl<M> MNIST<M> {
    /// The bytes of the last capture.
    pub closed spec fn snapshot(&self) -> Seq<u8> {
        self.canvas_data@
    }

    /// The width of the last capture.
    pub closed spec fn snapshot_width(&self) -> u32 {
        self.width
    }

    /// The height of the last capture.
    pub closed spec fn snapshot_height(&self) -> u32 {
        self.height
    }

    /// The model handle, `None` while the session is uninitialized.
    pub closed spec fn handle(&self) -> Option<M> {
        self.model
    }

    /// The names of the model's input and output tensors, in this order.
    pub closed spec fn tensor_names(&self) -> (Seq<char>, Seq<char>) {
        (self.input_name@, self.output_name@)
    }

    /// Whether the model is loaded.
    pub open spec fn ready(&self) -> bool {
        self.handle() is Some
    }

    /// Whether the session holds the same capture and tensor names as
    /// `before`.
    pub open spec fn same_request(&self, before: &Self) -> bool {
        &&& self.snapshot() == before.snapshot()
        &&& self.snapshot_width() == before.snapshot_width()
        &&& self.snapshot_height() == before.snapshot_height()
        &&& self.tensor_names() == before.tensor_names()
    }

    /// A session without a model and without a capture, for a canvas of
    /// `SIDE` x `SIDE` and a model with the default tensor names.
    pub fn new() -> (session: MNIST<M>)
        ensures
            !session.ready(),
            session.snapshot() == Seq::<u8>::empty(),
            session.snapshot_width() == SIDE,
            session.snapshot_height() == SIDE,
            session.tensor_names() == (DEFAULT_INPUT_NAME@, DEFAULT_OUTPUT_NAME@),
    {
        MNIST::with_tensor_names(DEFAULT_INPUT_NAME.to_owned(), DEFAULT_OUTPUT_NAME.to_owned())
    }

    /// A session like a new one, for a model whose tensors have these
    /// names.
    pub fn with_tensor_names(input_name: String, output_name: String) -> (session: MNIST<M>)
        ensures
            !session.ready(),
            session.snapshot() == Seq::<u8>::empty(),
            session.snapshot_width() == SIDE,
            session.snapshot_height() == SIDE,
            session.tensor_names() == (input_name@, output_name@),
    {
        MNIST { canvas_data: Vec::new(), model: None, width: SIDE, height: SIDE, input_name, output_name }
    }

    /// The name under which the host feeds the tensor to the model.
    pub fn input_name(&self) -> (name: &str)
        ensures
            name@ == self.tensor_names().0,
    {
        self.input_name.as_str()
    }

    /// The name of the model's output that holds the scores.
    pub fn output_name(&self) -> (name: &str)
        ensures
            name@ == self.tensor_names().1,
    {
        self.output_name.as_str()
    }

    /// Whether the model is loaded.
    pub fn is_ready(&self) -> (ready: bool)
        ensures
            ready == self.ready(),
    {
        self.model.is_some()
    }

    /// The model handle, for the host to run.
    pub fn model(&self) -> (handle: Option<&M>)
        ensures
            match handle {
                Some(model) => self.handle() == Some(*model),
                None => self.handle() is None,
            },
    {
        self.model.as_ref()
    }

    /// Takes a new capture and answers the request to classify it.
    pub fn execute(&mut self, canvas_data: Vec<u8>, width: u32, height: u32) -> (action: Action)
        requires
            capture_in_reach(canvas_data@.len(), width, height),
        ensures
            final(self).snapshot() == canvas_data@,
            final(self).snapshot_width() == width,
            final(self).snapshot_height() == height,
            final(self).tensor_names() == old(self).tensor_names(),
            final(self).handle() == old(self).handle(),
            answers_canvas(old(self).ready(), canvas_data@, width, height, action),
    {
        self.canvas_data = canvas_data;
        self.width = width;
        self.height = height;
        self.resume()
    }

    /// Answers the request to classify the capture that the session holds.
    pub fn resume(&self) -> (action: Action)
        requires
            capture_in_reach(self.snapshot().len(), self.snapshot_width(), self.snapshot_height()),
        ensures
            answers_canvas(self.ready(), self.snapshot(), self.snapshot_width(), self.snapshot_height(), action),
    {
        if self.model.is_none() {
            return Action::LoadModel;
        }
        match prepare_canvas(self.canvas_data.as_slice(), self.width, self.height) {
            Ok(tensor) => Action::RunInference(tensor),
            Err(e) => Action::Fail(e),
        }
    }

    /// Answers the request to classify a brightness grid.
    pub fn classify(&self, grid: &IntensityGrid) -> (action: Action)
        requires
            resample_fits(grid.cols(), grid.rows(), SIDE as nat, SIDE as nat),
        ensures
            answers_grid(self.ready(), grid@, grid.cols(), grid.rows(), action),
    {
        if self.model.is_none() {
            return Action::LoadModel;
        }
        match preprocess(grid) {
            Ok(tensor) => Action::RunInference(tensor),
            Err(e) => Action::Fail(e),
        }
    }

    /// Takes the host's report on loading the model: the handle, or `None`
    /// if loading failed. Without a model the request fails with
    /// `ModelLoadFailure` and the session stays uninitialized; with one the
    /// request on the capture goes on.
    pub fn model_loaded(&mut self, loaded: Option<M>) -> (action: Action)
        requires
            capture_in_reach(old(self).snapshot().len(), old(self).snapshot_width(), old(self).snapshot_height()),
        ensures
            final(self).handle() == handle_after_load(old(self).handle(), loaded),
            final(self).same_request(old(self)),
            !final(self).ready() ==> action == Action::Fail(PipelineError::ModelLoadFailure),
            final(self).ready() ==> answers_canvas(
                true,
                old(self).snapshot(),
                old(self).snapshot_width(),
                old(self).snapshot_height(),
                action,
            ),
    {
        self.install_model(loaded);
        if self.model.is_none() {
            return Action::Fail(PipelineError::ModelLoadFailure);
        }
        self.resume()
    }

    /// Takes the host's report on loading the model as `model_loaded` does,
    /// where the request is on a brightness grid.
    pub fn model_loaded_for(&mut self, loaded: Option<M>, grid: &IntensityGrid) -> (action: Action)
        requires
            resample_fits(grid.cols(), grid.rows(), SIDE as nat, SIDE as nat),
        ensures
            final(self).handle() == handle_after_load(old(self).handle(), loaded),
            final(self).same_request(old(self)),
            !final(self).ready() ==> action == Action::Fail(PipelineError::ModelLoadFailure),
            final(self).ready() ==> answers_grid(true, grid@, grid.cols(), grid.rows(), action),
    {
        self.install_model(loaded);
        if self.model.is_none() {
            return Action::Fail(PipelineError::ModelLoadFailure);
        }
        self.classify(grid)
    }

    /// Takes the host's report on loading the model without going on with a
    /// request: a handle that is already there stays.
    pub fn install_model(&mut self, loaded: Option<M>)
        ensures
            final(self).handle() == handle_after_load(old(self).handle(), loaded),
            final(self).same_request(old(self)),
    {
        if self.model.is_none() {
            self.model = loaded;
        }
    }

    /// Takes the host's report on the inference run: `None` if the engine
    /// failed, else the bit patterns of the scores. The session is as
    /// before, whatever came back.
    pub fn inference_finished(&self, outcome: Option<Vec<u32>>) -> (action: Action)
        ensures
            action == verdict(digit_of(outcome_bits(outcome))),
            action matches Action::Report(digit) ==> digit < CLASSES,
    {
        match conclude(outcome) {
            Ok(digit) => Action::Report(digit),
            Err(e) => Action::Fail(e),
        }
    }

    /// Forgets the capture; the model and the tensor names stay.
    pub fn clear(&mut self)
        ensures
            final(self).snapshot() == Seq::<u8>::empty(),
            final(self).snapshot_width() == old(self).snapshot_width(),
            final(self).snapshot_height() == old(self).snapshot_height(),
            final(self).tensor_names() == old(self).tensor_names(),
            final(self).handle() == old(self).handle(),
    {
        self.canvas_data.clear();
    }
}

} // verus!
