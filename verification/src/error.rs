//! The failures a classification request can end in.

use vstd::prelude::*;

verus! {

/// Why a classification request produced no digit.
#[derive(Clone, Copy, Debug, PartialEq, Eq, Structural)]
pub enum PipelineError {
    /// The pixel buffer's length does not match the stated dimensions.
    InvalidBufferSize,
    /// Nothing is drawn: no pixel is foreground after thresholding.
    EmptyCanvas,
    /// The image file could not be decoded.
    DecodeFailure,
    /// The model artifact is missing or corrupt.
    ModelLoadFailure,
    /// The inference engine failed on this request.
    InferenceFailure,
}

impl PipelineError {
    /// The text of `message`, variant by variant.
    pub open spec fn message_text(self) -> Seq<char> {
        match self {
            PipelineError::InvalidBufferSize => "canvas data does not match its dimensions"@,
            PipelineError::EmptyCanvas => "nothing is drawn; draw a digit and try again"@,
            PipelineError::DecodeFailure => "the image could not be decoded"@,
            PipelineError::ModelLoadFailure => "the model could not be loaded"@,
            PipelineError::InferenceFailure => "the inference run failed"@,
        }
    }

    /// A human-readable message to show in place of a result.
    pub fn message(&self) -> (text: &'static str)
        ensures
            text@ == self.message_text(),
    {
        match self {
            PipelineError::InvalidBufferSize => "canvas data does not match its dimensions",
            PipelineError::EmptyCanvas => "nothing is drawn; draw a digit and try again",
            PipelineError::DecodeFailure => "the image could not be decoded",
            PipelineError::ModelLoadFailure => "the model could not be loaded",
            PipelineError::InferenceFailure => "the inference run failed",
        }
    }
}

} // verus!
