use vstd::prelude::*;

verus! {

/// A linear RGB colour whose channels are stored in thousandths, so that
/// `Color { r: 850, g: 300, b: 40 }` stands for the reflectance
/// `(0.850, 0.300, 0.040)`. Every colour of the palettes is written with at
/// most three decimals, so this representation is exact.
#[derive(Clone, Copy, Debug, PartialEq, Eq, Structural)]
pub struct Color {
    pub r: u16,
    pub g: u16,
    pub b: u16,
}

impl Color {
    /// Builds a colour from its three channels in thousandths.
    pub fn new(r: u16, g: u16, b: u16) -> (c: Color)
        ensures
            c == (Color { r, g, b }),
    {
        Color { r, g, b }
    }
}

} // verus!
