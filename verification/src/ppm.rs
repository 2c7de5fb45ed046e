//! A simple image buffer.
//!
//! Each pixel is one value of a copyable type — for this renderer a
//! `Color` while accumulating, or an RGB byte triple after tone mapping.
//! Writing the buffer out (the PPM header and rows) is an output
//! concern that the rendering core leaves to its caller.

use vstd::prelude::*;

verus! {

/// A rectangular pixel buffer stored row by row.
pub struct Image<T> {
    pub width: usize,
    pub height: usize,
    pub pixels: Vec<T>,
}

/// The buffer holds exactly one value per pixel.
pub open spec fn image_wf<T>(img: Image<T>) -> bool {
    img.pixels@.len() == img.width * img.height
}

impl<T: Copy> Image<T> {
    /// Create a new image with every pixel set to `value`.
    pub fn new(width: usize, height: usize, value: T) -> (r: Image<T>)
        requires
            width * height <= usize::MAX,
        ensures
            image_wf(r),
            r.width == width,
            r.height == height,
            forall|i: int| 0 <= i < r.pixels@.len() ==> r.pixels@[i] == value,
    {
        proof {
            assert(width * height <= usize::MAX) by (nonlinear_arith)
                requires
                    width * height <= usize::MAX,
            ;
        }
        let n = width * height;
        let mut pixels: Vec<T> = Vec::new();
        let mut i: usize = 0;
        while i < n
            invariant
                i <= n,
                pixels@.len() == i,
                forall|k: int| 0 <= k < i ==> pixels@[k] == value,
            decreases n - i,
        {
            pixels.push(value);
            i = i + 1;
        }
        Image { width, height, pixels }
    }

    /// Returns the width in pixels.
    pub fn width(&self) -> (r: usize)
        ensures
            r == self.width,
    {
        self.width
    }

    /// Returns the height in pixels.
    pub fn height(&self) -> (r: usize)
        ensures
            r == self.height,
    {
        self.height
    }

    /// Read the pixel at column `x` of row `y`.
    pub fn pixel(&self, x: usize, y: usize) -> (r: T)
        requires
            image_wf(*self),
            x < self.width,
            y < self.height,
        ensures
            r == self.pixels@[y * self.width + x],
    {
        let len = self.pixels.len();
        proof {
            lemma_pixel_index(x as int, y as int, self.width as int, self.height as int);
        }
        self.pixels[y * self.width + x]
    }

    /// Overwrite the pixel at column `x` of row `y`.
    pub fn set_pixel(&mut self, x: usize, y: usize, value: T)
        requires
            image_wf(*old(self)),
            x < old(self).width,
            y < old(self).height,
        ensures
            image_wf(*final(self)),
            final(self).width == old(self).width,
            final(self).height == old(self).height,
            final(self).pixels@ == old(self).pixels@.update(
                (y * old(self).width + x) as int,
                value,
            ),
    {
        let len = self.pixels.len();
        proof {
            lemma_pixel_index(x as int, y as int, self.width as int, self.height as int);
        }
        let idx = y * self.width + x;
        self.pixels.set(idx, value);
    }
}

/// Row-major indexing stays inside the buffer.
proof fn lemma_pixel_index(x: int, y: int, w: int, h: int)
    requires
        0 <= x < w,
        0 <= y < h,
    ensures
        0 <= y * w + x < w * h,
{
    assert(0 <= y * w + x < w * h) by (nonlinear_arith)
        requires
            0 <= x < w,
            0 <= y < h,
    ;
}

} // verus!
