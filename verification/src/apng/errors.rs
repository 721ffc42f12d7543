//! The closed set of error kinds surfaced by the encoder.

use vstd::prelude::*;

verus! {

pub type ApngResult<T> = Result<T, ApngError>;

/// Everything that can go wrong while encoding. No error is recovered
/// internally; after a failed operation the encoder state is unchanged,
/// but the stream must be considered unusable.
#[derive(Debug, PartialEq, Eq, Structural, Clone, Copy)]
pub enum ApngError {
    /// `write_default_image` after a frame control chunk was emitted.
    DefaultImageNotAtFirst,
    /// Construction with a color/bit-depth pair outside the legal set.
    InvalidColor,
    /// First frame without a separate default image does not cover the canvas.
    InvalidDefaultImageRectangle,
    /// A second `write_default_image` call.
    MulitiDefaultImage,
    /// `finish` before all declared frames were written: (expected, actual).
    NotEnoughFrames(usize, usize),
    /// Frame rectangle exceeds the canvas, or the buffer implies more rows
    /// than the rectangle bottom.
    TooLargeImage,
    /// `write_frame` called past the declared frame count: (expected, actual).
    TooManyFrames(usize, usize),
    /// Buffer length implies fewer rows than the frame height.
    TooSmallImage,
}

} // verus!
