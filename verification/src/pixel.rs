use vstd::prelude::*;

verus! {

/// One RGB pixel: three 8-bit channel magnitudes.
#[derive(Clone, Copy, PartialEq, Eq, Structural, Debug)]
pub struct Pixel {
    pub r: u8,
    pub g: u8,
    pub b: u8,
}

/// The value of channel `c` of `p`: 0 is red, 1 is green, 2 is blue.
pub open spec fn pixel_channel(p: Pixel, c: int) -> u8 {
    if c == 0 {
        p.r
    } else if c == 1 {
        p.g
    } else {
        p.b
    }
}

/// An ordered sequence of RGB pixels in raster (row-major) order.
pub struct PixelBuffer {
    pub pixels: Vec<Pixel>,
}

impl View for PixelBuffer {
    type V = Seq<Pixel>;

    open spec fn view(&self) -> Seq<Pixel> {
        self.pixels@
    }
}

impl PixelBuffer {
    pub fn new() -> (r: PixelBuffer)
        ensures
            r@ == Seq::<Pixel>::empty(),
    {
        PixelBuffer { pixels: Vec::new() }
    }

    pub fn len(&self) -> (r: usize)
        ensures
            r == self@.len(),
    {
        self.pixels.len()
    }

    pub fn push(&mut self, p: Pixel)
        ensures
            final(self)@ == old(self)@.push(p),
    {
        self.pixels.push(p);
    }
}

} // verus!
