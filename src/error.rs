//! Errors of the extraction pipeline.
use vstd::prelude::*;

verus! {

/// Why a raster buffer could not be encoded.
#[derive(Clone, Copy, Debug, PartialEq, Eq, Structural)]
pub enum EncodeError {
    /// The buffer does not hold exactly `width * height * 4` bytes.
    BufferLength,
    /// The image codec refused the buffer.
    Codec,
}

/// Why an extraction failed.
#[derive(Clone, Copy, Debug, PartialEq, Eq, Structural)]
pub enum ExtractionError {
    /// The container could not be opened or holds no video stream.
    Open,
    /// A packet could not be decoded.
    Decode,
    /// A decoded picture could not be converted to RGBA.
    Scale,
    /// A raster buffer could not be encoded.
    Encode(EncodeError),
    /// The frame rate or the cadence gives no positive step.
    InvalidStep,
}

} // verus!
