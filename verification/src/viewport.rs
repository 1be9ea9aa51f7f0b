use vstd::prelude::*;

verus! {

/// Render configuration: image size in pixels, the per-pixel sampling
/// budget, and the bounce-depth limit of the radiance recursion.
/// Plain values set once before rendering begins.
#[derive(Clone, Copy, Debug, PartialEq, Eq, Structural)]
pub struct Viewport {
    pub width: u32,
    pub height: u32,
    pub samples: u32,
    pub depth: u32,
}

impl Viewport {
    pub fn new(width: u32, height: u32, samples: u32, depth: u32) -> (v: Viewport)
        ensures
            v.width == width,
            v.height == height,
            v.samples == samples,
            v.depth == depth,
    {
        Viewport { width, height, samples, depth }
    }

    /// Number of pixels in the image.
    pub fn area(&self) -> (a: usize)
        requires
            self.width as int * self.height as int <= usize::MAX,
        ensures
            a == self.width as int * self.height as int,
    {
        self.width as usize * self.height as usize
    }
}

} // verus!
