//! Image-wide and per-frame parameters of an APNG stream.

use vstd::prelude::*;

pub mod chunks;
pub mod encoder;
pub mod compress;
pub mod filters;
pub mod errors;
pub mod validators;

verus! {

/// Image-wide parameters, fixed when an encoder is constructed.
#[derive(Debug, Clone, Copy)]
pub struct Meta {
    pub color: Color,
    /// Number of animation frames
    pub frames: u32,
    pub height: u32,
    /// Number of plays; `None` encodes an infinite loop (wire value 0)
    pub plays: Option<u32>,
    pub width: u32,
}

/// Color model with its bit depth.
#[derive(Debug, PartialEq, Eq, Structural, Clone, Copy)]
pub enum Color {
    Grayscale(u8),
    GrayscaleA(u8),
    RGB(u8),
    RGBA(u8),
}

/// Per-frame parameters; every field defaults at emit time.
#[derive(Debug, Clone, Copy)]
pub struct Frame {
    pub width: Option<u32>,
    pub height: Option<u32>,
    pub x: Option<u32>,
    pub y: Option<u32>,
    pub delay: Option<Delay>,
    pub dispose_operator: Option<DisposeOperator>,
    pub blend_operator: Option<BlendOperator>,
}

/// A frame delay of `numerator / denominator` seconds.
#[derive(Debug, PartialEq, Eq, Structural, Clone, Copy)]
pub struct Delay {
    pub numerator: u16,
    pub denominator: u16,
}

/// What a decoder does with the canvas after a frame is shown.
#[derive(Debug, PartialEq, Eq, Structural, Clone, Copy)]
pub enum DisposeOperator {
    NoDisposal,
    Background,
    Previous,
}

/// How a frame's pixels combine with the canvas.
#[derive(Debug, PartialEq, Eq, Structural, Clone, Copy)]
pub enum BlendOperator {
    Source,
    Over,
}

impl Color {
    /// The bit depth carried by any variant.
    pub open spec fn spec_bit_depth(self) -> u8 {
        match self {
            Color::Grayscale(b) => b,
            Color::GrayscaleA(b) => b,
            Color::RGB(b) => b,
            Color::RGBA(b) => b,
        }
    }

    #[verifier::when_used_as_spec(spec_bit_depth)]
    pub fn bit_depth(self) -> (r: u8)
        ensures
            r == self.spec_bit_depth(),
    {
        match self {
            Color::Grayscale(b) => b,
            Color::GrayscaleA(b) => b,
            Color::RGB(b) => b,
            Color::RGBA(b) => b,
        }
    }

    /// Bytes per pixel: one per sample, two at bit depth 16.
    pub open spec fn spec_pixel_bytes(self) -> usize {
        match self {
            Color::Grayscale(b) => if b == 16 { 2usize } else { 1usize },
            Color::GrayscaleA(b) => if b == 16 { 4usize } else { 2usize },
            Color::RGB(b) => if b == 16 { 6usize } else { 3usize },
            Color::RGBA(b) => if b == 16 { 8usize } else { 4usize },
        }
    }

    #[verifier::when_used_as_spec(spec_pixel_bytes)]
    pub fn pixel_bytes(self) -> (r: usize)
        ensures
            r == self.spec_pixel_bytes(),
            1 <= r <= 8,
    {
        match self {
            Color::Grayscale(b) => if b == 16 { 2 } else { 1 },
            Color::GrayscaleA(b) => if b == 16 { 4 } else { 2 },
            Color::RGB(b) => if b == 16 { 6 } else { 3 },
            Color::RGBA(b) => if b == 16 { 8 } else { 4 },
        }
    }
}

impl Delay {
    pub fn new(numerator: u16, denominator: u16) -> (r: Self)
        ensures
            r == (Delay { numerator, denominator }),
    {
        Delay { numerator, denominator }
    }
}

impl Default for Delay {
    /// An unspecified delay defaults to 0/0.
    fn default() -> (r: Self)
        ensures
            r == (Delay { numerator: 0u16, denominator: 0u16 }),
    {
        Delay { numerator: 0, denominator: 0 }
    }
}

impl Default for DisposeOperator {
    fn default() -> (r: Self)
        ensures
            r == DisposeOperator::NoDisposal,
    {
        DisposeOperator::NoDisposal
    }
}

impl Default for BlendOperator {
    fn default() -> (r: Self)
        ensures
            r == BlendOperator::Source,
    {
        BlendOperator::Source
    }
}

impl Default for Frame {
    fn default() -> (r: Self)
        ensures
            r.width.is_none(),
            r.height.is_none(),
            r.x.is_none(),
            r.y.is_none(),
            r.delay.is_none(),
            r.dispose_operator.is_none(),
            r.blend_operator.is_none(),
    {
        Frame {
            width: None,
            height: None,
            x: None,
            y: None,
            delay: None,
            dispose_operator: None,
            blend_operator: None,
        }
    }
}

} // verus!
