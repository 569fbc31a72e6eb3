//! The colour that a lookup is about, out of what was given in each notation.

use vstd::prelude::*;
use crate::color::RGBValue;
use crate::error::ColorError;

verus! {

/// The colour to look up, where exactly one notation was given.
pub open spec fn selected(hex: Option<RGBValue>, rgb: Option<RGBValue>) -> Result<
    RGBValue,
    ColorError,
> {
    match (hex, rgb) {
        (Some(color), None) => Ok(color),
        (None, Some(color)) => Ok(color),
        _ => Err(ColorError::Usage),
    }
}

/// Picks the colour to look up. A colour in both notations, or in neither, is
/// a usage error: no request is then made.
pub fn select_color(hex: Option<RGBValue>, rgb: Option<RGBValue>) -> (r: Result<
    RGBValue,
    ColorError,
>)
    ensures
        r == selected(hex, rgb),
{
    match (hex, rgb) {
        (Some(color), None) => Ok(color),
        (None, Some(color)) => Ok(color),
        _ => Err(ColorError::Usage),
    }
}

} // verus!
