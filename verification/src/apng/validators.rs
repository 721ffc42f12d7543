//! Validation of color/bit-depth combinations.

use vstd::prelude::*;
use super::Color;
use super::errors::{ApngError, ApngResult};

verus! {

/// The legal color/bit-depth pairs: Grayscale allows 1, 2, 4, 8 and 16;
/// every other variant allows 8 and 16.
pub open spec fn color_ok(color: Color) -> bool {
    match color {
        Color::Grayscale(b) => b == 1 || b == 2 || b == 4 || b == 8 || b == 16,
        Color::GrayscaleA(b) => b == 8 || b == 16,
        Color::RGB(b) => b == 8 || b == 16,
        Color::RGBA(b) => b == 8 || b == 16,
    }
}

/// Accepts exactly the legal color/bit-depth pairs.
pub fn validate_color(color: &Color) -> (r: ApngResult<()>)
    ensures
        r is Ok <==> color_ok(*color),
        r is Err ==> r == ApngResult::<()>::Err(ApngError::InvalidColor),
{
    let ok = match *color {
        Color::Grayscale(b) => b == 1 || b == 2 || b == 4 || b == 8 || b == 16,
        Color::GrayscaleA(b) => b == 8 || b == 16,
        Color::RGB(b) => b == 8 || b == 16,
        Color::RGBA(b) => b == 8 || b == 16,
    };
    if ok {
        Ok(())
    } else {
        Err(ApngError::InvalidColor)
    }
}

} // verus!
