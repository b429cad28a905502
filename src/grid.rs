//! A row-major RGBA pixel grid and the arithmetic of its byte layout.
use vstd::arithmetic::div_mod::{lemma_fundamental_div_mod, lemma_fundamental_div_mod_converse};
use vstd::prelude::*;

verus! {

/// Offset of channel `c` of the pixel at column `x`, row `y` in a grid
/// `w` pixels wide, with four bytes per pixel.
pub open spec fn idx(w: int, x: int, y: int, c: int) -> int {
    4 * (y * w + x) + c
}

/// Channel `c` of pixel `(x, y)` of the bytes `data` of a grid `w` pixels wide.
pub open spec fn sample(data: Seq<u8>, w: int, x: int, y: int, c: int) -> u8 {
    data[idx(w, x, y, c)]
}

/// A `width` by `height` grid of RGBA pixels with 8-bit channels, stored row
/// by row from the top-left corner.
pub struct PixelGrid {
    pub width: u32,
    pub height: u32,
    pub data: Vec<u8>,
}

impl PixelGrid {
    /// The buffer holds exactly four bytes per pixel.
    pub open spec fn wf(&self) -> bool {
        self.data@.len() == 4 * self.width * self.height
    }

    /// Channel `c` of pixel `(x, y)`.
    pub open spec fn byte(&self, x: int, y: int, c: int) -> u8 {
        sample(self.data@, self.width as int, x, y, c)
    }

    /// Builds a grid from its bytes; `None` unless there are exactly four
    /// bytes per pixel.
    pub fn new(width: u32, height: u32, data: Vec<u8>) -> (r: Option<PixelGrid>)
        ensures
            r is Some <==> data@.len() == 4 * width * height,
            r matches Some(g) ==> g.width == width && g.height == height && g.data@ == data@,
    {
        if fits_grid(width, height, data.len()) {
            Some(PixelGrid { width, height, data })
        } else {
            None
        }
    }

    /// The four channels of pixel `(x, y)`.
    pub fn pixel(&self, x: u32, y: u32) -> (r: [u8; 4])
        requires
            self.wf(),
            x < self.width,
            y < self.height,
        ensures
            forall|c: int| 0 <= c < 4 ==> r@[c] == self.byte(x as int, y as int, c),
    {
        let len = self.data.len();
        proof {
            lemma_idx_bounds(self.width as int, self.height as int, x as int, y as int, 3);
        }
        let base = 4 * (y as usize * self.width as usize + x as usize);
        [self.data[base], self.data[base + 1], self.data[base + 2], self.data[base + 3]]
    }
}

/// Whether `len` bytes are exactly four per pixel of a `width` by `height` grid.
pub fn fits_grid(width: u32, height: u32, len: usize) -> (r: bool)
    ensures
        r == (len == 4 * width * height),
{
    assert(width as int * height as int <= 0xffff_ffff * 0xffff_ffff) by (nonlinear_arith)
        requires
            width <= 0xffff_ffff,
            height <= 0xffff_ffff,
            0 <= width,
            0 <= height,
    ;
    let pixels: u64 = width as u64 * height as u64;
    assert(4 * width * height == 4 * (width * height)) by (nonlinear_arith);
    match pixels.checked_mul(4) {
        Some(n) => len as u64 == n,
        None => false,
    }
}

/// Every channel of every pixel lies inside the buffer.
pub proof fn lemma_idx_bounds(w: int, h: int, x: int, y: int, c: int)
    requires
        0 <= x < w,
        0 <= y < h,
        0 <= c < 4,
    ensures
        0 <= y * w,
        0 <= idx(w, x, y, c) < 4 * w * h,
{
    assert(0 <= y * w) by (nonlinear_arith)
        requires
            0 <= y,
            0 <= w,
    ;
    assert(y * w + x < w * h) by (nonlinear_arith)
        requires
            0 <= x < w,
            0 <= y < h,
    ;
    assert(4 * (w * h) == 4 * w * h) by (nonlinear_arith);
}

/// A pixel written before `(x, y)` in row-major order lies before its bytes.
pub proof fn lemma_idx_earlier(w: int, x: int, y: int, x2: int, y2: int, c: int)
    requires
        0 <= x2 < w,
        0 <= y2,
        0 <= x,
        0 <= c < 4,
        y2 < y || (y2 == y && x2 < x),
    ensures
        0 <= idx(w, x2, y2, c) < idx(w, x, y, 0),
{
    assert(0 <= y2 * w) by (nonlinear_arith)
        requires
            0 <= y2,
            0 <= w,
    ;
    if y2 < y {
        assert(y2 * w + w <= y * w) by (nonlinear_arith)
            requires
                y2 < y,
                0 <= w,
        ;
    }
}

/// Finishing a row brings the buffer to the start of the next one.
pub proof fn lemma_idx_next_row(w: int, y: int)
    ensures
        idx(w, w, y, 0) == idx(w, 0, y + 1, 0),
{
    assert((y + 1) * w == y * w + w) by (nonlinear_arith);
}

/// Each byte offset of a grid is the offset of one channel of one pixel.
pub proof fn lemma_idx_of_offset(w: int, h: int, i: int)
    requires
        0 < w,
        0 <= h,
        0 <= i < 4 * w * h,
    ensures
        0 <= (i / 4) % w < w,
        0 <= (i / 4) / w < h,
        0 <= i % 4 < 4,
        i == idx(w, (i / 4) % w, (i / 4) / w, i % 4),
{
    lemma_fundamental_div_mod(i, 4);
    lemma_fundamental_div_mod(i / 4, w);
    let k = i / 4;
    let y = k / w;
    assert(0 <= k < w * h) by (nonlinear_arith)
        requires
            0 <= i < 4 * w * h,
            i == 4 * k + i % 4,
            0 <= i % 4 < 4,
    ;
    assert(0 <= y < h) by (nonlinear_arith)
        requires
            0 <= k < w * h,
            k == w * y + k % w,
            0 <= k % w < w,
            0 < w,
    ;
}

/// The offset of a channel of a pixel names that channel and pixel again.
pub proof fn lemma_offset_of_idx(w: int, x: int, y: int, c: int)
    requires
        0 <= x < w,
        0 <= y,
        0 <= c < 4,
    ensures
        idx(w, x, y, c) / 4 == y * w + x,
        (idx(w, x, y, c) / 4) % w == x,
        (idx(w, x, y, c) / 4) / w == y,
        idx(w, x, y, c) % 4 == c,
{
    lemma_fundamental_div_mod_converse(idx(w, x, y, c), 4, y * w + x, c);
    assert(y * w == w * y) by (nonlinear_arith);
    lemma_fundamental_div_mod_converse(y * w + x, w, y, x);
}

} // verus!
