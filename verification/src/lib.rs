//! Recognition of a handwritten digit from a brightness image: the
//! deterministic steps from raw pixels to the 28 x 28 tensor a network
//! reads, and from the network's scores to the digit.
//!
//! The data flows from raw bytes through `grid` (an image file or an RGBA
//! capture to a brightness grid), `preprocess` (resample, threshold,
//! binarize, invert) and the host's inference engine to `scores` (the
//! winning class). `classifier` holds the session that strings the steps
//! together. `decode` and `resample` hold the two calls into the `image`
//! crate.

pub mod classifier;
pub mod decode;
pub mod error;
pub mod grid;
pub mod preprocess;
pub mod resample;
pub mod scores;

pub use crate::classifier::{conclude, prepare_canvas, Action, MNIST};
pub use crate::error::PipelineError;
pub use crate::grid::IntensityGrid;
pub use crate::preprocess::{preprocess, NormalizedTensor};
pub use crate::scores::extract;
