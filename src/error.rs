//! Errors reported by negotiation, construction and transcoding.
use vstd::prelude::*;
use crate::frame_format::FrameFormat;
use crate::pixel_format::OutputLayout;

verus! {

/// Every failure is returned to the caller; none is raised by a panic.
#[derive(Clone, Debug, PartialEq)]
pub enum NokhwaError {
    /// The source format is not among those the output layout accepts.
    UnsupportedFormat { src: FrameFormat, destination: OutputLayout },
    /// The destination buffer does not have exactly the predicted length.
    SizeMismatch { expected: usize, actual: usize },
    /// The source buffer is shorter than the resolution and format require, or a
    /// decoded frame does not have the stated resolution.
    MalformedInput { required: usize, actual: usize },
    /// A conversion through a 4:2:0 or 4:2:2 layout was asked for with an odd
    /// dimension, or the frame is too large to address.
    InvalidDimensions { width: usize, height: usize },
    /// A frame rate was given a denominator that is not positive, or its value does
    /// not fit.
    InvalidFrameRate { numerator: i64, denominator: i64 },
    /// The compressed-frame decoder rejected the data.
    DecodeFailed { src: FrameFormat },
    /// A camera index could not be read as a number.
    GeneralError(String),
}

} // verus!
