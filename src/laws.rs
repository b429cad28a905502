//! Properties of the rounded image that hold for every input.
use crate::corners::{rounded_byte, rounded_pixels};
use crate::grid::{idx, lemma_idx_bounds, lemma_idx_of_offset, lemma_offset_of_idx, sample};
use crate::mask::in_corner_circles;
use vstd::prelude::*;

verus! {

/// Pixel `(x, y)` lies in one of the four `radius` by `radius` squares at the
/// corners of a `width` by `height` grid.
pub open spec fn in_corner_square(width: u32, height: u32, radius: u32, x: int, y: int) -> bool {
    (x < radius || x >= width - radius) && (y < radius || y >= height - radius)
}

/// Each channel of each pixel of the rounded image is the one that
/// `rounded_byte` gives for it.
pub proof fn lemma_rounded_at(
    src: Seq<u8>,
    src_width: int,
    width: u32,
    height: u32,
    radius: u32,
    x: int,
    y: int,
    c: int,
)
    requires
        0 <= x < width,
        0 <= y < height,
        0 <= c < 4,
    ensures
        0 <= idx(width as int, x, y, c) < rounded_pixels(
            src,
            src_width,
            width,
            height,
            radius,
        ).len(),
        rounded_pixels(src, src_width, width, height, radius)[idx(width as int, x, y, c)]
            == rounded_byte(src, src_width, width, height, radius, x, y, c),
{
    lemma_idx_bounds(width as int, height as int, x, y, c);
    lemma_offset_of_idx(width as int, x, y, c);
}

/// With radius zero every pixel of the rounded image is fully opaque.
pub proof fn lemma_zero_radius_opaque(src: Seq<u8>, src_width: int, width: u32, height: u32)
    ensures
        forall|i: int|
            0 <= i < rounded_pixels(src, src_width, width, height, 0).len() && i % 4 == 3
                ==> #[trigger] rounded_pixels(src, src_width, width, height, 0)[i] == 255,
{
    assert forall|i: int|
        0 <= i < rounded_pixels(src, src_width, width, height, 0).len() && i % 4
            == 3 implies #[trigger] rounded_pixels(src, src_width, width, height, 0)[i] == 255 by {
        if width == 0 {
            assert(4 * width * height == 0) by (nonlinear_arith)
                requires
                    width == 0,
            ;
        }
        lemma_idx_of_offset(width as int, height as int, i);
    }
}

/// Outside the four corner squares every pixel of the rounded image is
/// opaque; inside them a pixel is opaque exactly where a corner circle covers
/// it, and transparent elsewhere; every pixel keeps the source's colour
/// channels.
pub proof fn lemma_corners(
    src: Seq<u8>,
    src_width: int,
    width: u32,
    height: u32,
    radius: u32,
    x: int,
    y: int,
)
    requires
        2 * radius <= width,
        2 * radius <= height,
        0 <= x < width,
        0 <= y < height,
    ensures
        !in_corner_square(width, height, radius, x, y) ==> rounded_pixels(
            src,
            src_width,
            width,
            height,
            radius,
        )[idx(width as int, x, y, 3)] == 255,
        in_corner_square(width, height, radius, x, y) ==> rounded_pixels(
            src,
            src_width,
            width,
            height,
            radius,
        )[idx(width as int, x, y, 3)] == if in_corner_circles(width, height, radius, x, y) {
            255u8
        } else {
            0u8
        },
        forall|c: int|
            0 <= c < 3 ==> #[trigger] rounded_pixels(src, src_width, width, height, radius)[idx(
                width as int,
                x,
                y,
                c,
            )] == sample(src, src_width, x, y, c),
{
    lemma_rounded_at(src, src_width, width, height, radius, x, y, 3);
    assert forall|c: int|
        0 <= c < 3 implies #[trigger] rounded_pixels(src, src_width, width, height, radius)[idx(
        width as int,
        x,
        y,
        c,
    )] == sample(src, src_width, x, y, c) by {
        lemma_rounded_at(src, src_width, width, height, radius, x, y, c);
    }
}

/// Rounding an already rounded image again, with the same size and radius,
/// gives it back unchanged.
pub proof fn lemma_rounding_idempotent(
    src: Seq<u8>,
    src_width: int,
    width: u32,
    height: u32,
    radius: u32,
)
    ensures
        rounded_pixels(
            rounded_pixels(src, src_width, width, height, radius),
            width as int,
            width,
            height,
            radius,
        ) == rounded_pixels(src, src_width, width, height, radius),
{
    let once = rounded_pixels(src, src_width, width, height, radius);
    let twice = rounded_pixels(once, width as int, width, height, radius);
    assert forall|i: int| 0 <= i < twice.len() implies twice[i] == once[i] by {
        if width == 0 {
            assert(4 * width * height == 0) by (nonlinear_arith)
                requires
                    width == 0,
            ;
        }
        lemma_idx_of_offset(width as int, height as int, i);
        let x = (i / 4) % (width as int);
        let y = (i / 4) / (width as int);
        lemma_rounded_at(src, src_width, width, height, radius, x, y, i % 4);
    }
    assert(twice =~= once);
}

} // verus!
