use vstd::prelude::*;

verus! {

/// Final 8-bit color of one pixel. Produced at the very end of pixel
/// averaging, after gamma correction of the linear color, and consumed
/// only by the image encoder.
#[derive(Clone, Copy, Debug, PartialEq, Eq, Structural)]
pub struct RGBColour {
    pub r: u8,
    pub g: u8,
    pub b: u8,
}

impl Default for RGBColour {
    /// Black, the color of an exhausted or absorbed ray.
    fn default() -> (c: RGBColour)
        ensures
            c.r == 0,
            c.g == 0,
            c.b == 0,
    {
        RGBColour { r: 0, g: 0, b: 0 }
    }
}

} // verus!
