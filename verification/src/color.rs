use vstd::prelude::*;

verus! {

/// A colour as three 8-bit components.
#[derive(Clone, Copy, Debug, PartialEq, Eq, Structural)]
pub struct RGBValue {
    pub red: u8,
    pub green: u8,
    pub blue: u8,
}

} // verus!
