//! The rounded-rectangle opacity mask: two opaque bands and four corner
//! circles on a transparent grid.
use crate::grid::{idx, lemma_idx_bounds, lemma_idx_earlier, lemma_idx_next_row, sample};
use vstd::prelude::*;

verus! {

/// The largest side, in pixels, of a grid that can be rounded: every
/// coordinate that drawing the corner circles computes then fits in an `i32`.
pub const MAX_SIDE: u32 = 0x4000_0000;

/// The corner radius fits twice across the grid, and the grid's sides are
/// within `MAX_SIDE`.
pub open spec fn geometry_ok(width: u32, height: u32, radius: u32) -> bool {
    2 * radius <= width && 2 * radius <= height && width <= MAX_SIDE && height <= MAX_SIDE
}

/// Pixel `(x, y)` lies in the horizontal band `radius <= x < width - radius`
/// or in the vertical band `radius <= y < height - radius`.
pub open spec fn in_bands(width: u32, height: u32, radius: u32, x: int, y: int) -> bool {
    (radius <= x < width - radius) || (radius <= y < height - radius)
}

/// Whether the filled circle that imageproc draws with centre `(cx, cy)` and
/// radius `radius` covers pixel `(x, y)`.
pub uninterp spec fn circle_covers(cx: i32, cy: i32, radius: i32, x: int, y: int) -> bool;

/// Pixel `(x, y)` is covered by one of the four circles of radius `radius`
/// centred `radius` in from each pair of edges.
///
/// The circles are imageproc's filled midpoint circles, which cover somewhat
/// more than the disk `(x - cx)^2 + (y - cy)^2 <= radius^2`: at radius 2 they
/// also cover the offsets `(+-1, +-2)` and `(+-2, +-1)` from the centre.
pub open spec fn in_corner_circles(width: u32, height: u32, radius: u32, x: int, y: int) -> bool {
    let r = radius as i32;
    let right = (width - radius) as i32;
    let bottom = (height - radius) as i32;
    circle_covers(r, r, r, x, y) || circle_covers(right, r, r, x, y) || circle_covers(
        r,
        bottom,
        r,
        x,
        y,
    ) || circle_covers(right, bottom, r, x, y)
}

/// Pixel `(x, y)` is inside the rounded rectangle: in a band or a corner circle.
pub open spec fn mask_opaque(width: u32, height: u32, radius: u32, x: int, y: int) -> bool {
    in_bands(width, height, radius, x, y) || in_corner_circles(width, height, radius, x, y)
}

/// Channel `c` of a mask pixel: colour channels are zero, alpha is 255 where
/// the pixel is opaque and zero elsewhere.
pub open spec fn mask_byte(opaque: bool, c: int) -> u8 {
    if c == 3 && opaque {
        255
    } else {
        0
    }
}

/// `m` holds the mask of a `width` by `height` grid with corner radius `radius`.
pub open spec fn is_mask(m: Seq<u8>, width: u32, height: u32, radius: u32) -> bool {
    &&& m.len() == 4 * width * height
    &&& forall|x: int, y: int, c: int|
        0 <= x < width && 0 <= y < height && 0 <= c < 4 ==> #[trigger] sample(m, width as int, x, y, c)
            == mask_byte(mask_opaque(width, height, radius, x, y), c)
}

/// Relies on imageproc::drawing::draw_filled_circle_mut on an RGBA image: it
/// sets every pixel inside the image that its filled circle covers to `color`
/// and leaves the others as they were; which pixels the circle covers depends
/// on the centre, the radius and the pixel alone.
#[verifier::external_body]
fn draw_filled_circle(
    data: &mut Vec<u8>,
    width: u32,
    height: u32,
    center: (i32, i32),
    radius: i32,
    color: [u8; 4],
)
    requires
        old(data)@.len() == 4 * width * height,
        width <= MAX_SIDE,
        height <= MAX_SIDE,
        0 <= center.0 <= MAX_SIDE,
        0 <= center.1 <= MAX_SIDE,
        0 <= radius <= MAX_SIDE / 2,
    ensures
        final(data)@.len() == old(data)@.len(),
        forall|x: int, y: int, c: int|
            0 <= x < width && 0 <= y < height && 0 <= c < 4 ==> #[trigger] sample(
                final(data)@,
                width as int,
                x,
                y,
                c,
            ) == if circle_covers(center.0, center.1, radius, x, y) {
                color@[c]
            } else {
                sample(old(data)@, width as int, x, y, c)
            },
{
    let mut canvas = image::RgbaImage::from_raw(width, height, std::mem::take(data)).unwrap();
    imageproc::drawing::draw_filled_circle_mut(&mut canvas, center, radius, image::Rgba(color));
    *data = canvas.into_raw();
}

/// A transparent `width` by `height` grid with the two bands made opaque.
fn fill_bands(width: u32, height: u32, radius: u32) -> (m: Vec<u8>)
    requires
        2 * radius <= width,
        2 * radius <= height,
    ensures
        m@.len() == 4 * width * height,
        forall|x: int, y: int, c: int|
            0 <= x < width && 0 <= y < height && 0 <= c < 4 ==> #[trigger] sample(
                m@,
                width as int,
                x,
                y,
                c,
            ) == mask_byte(in_bands(width, height, radius, x, y), c),
{
    let ghost w = width as int;
    let mut m: Vec<u8> = Vec::new();
    let mut y: u32 = 0;
    while y < height
        invariant
            y <= height,
            w == width,
            2 * radius <= width,
            2 * radius <= height,
            m@.len() == idx(w, 0, y as int, 0),
            forall|x2: int, y2: int, c: int|
                0 <= x2 < width && 0 <= y2 < y && 0 <= c < 4 ==> #[trigger] sample(
                    m@,
                    w,
                    x2,
                    y2,
                    c,
                ) == mask_byte(in_bands(width, height, radius, x2, y2), c),
        decreases height - y,
    {
        let mut x: u32 = 0;
        while x < width
            invariant
                x <= width,
                y < height,
                w == width,
                2 * radius <= width,
                2 * radius <= height,
                m@.len() == idx(w, x as int, y as int, 0),
                forall|x2: int, y2: int, c: int|
                    0 <= x2 < width && 0 <= y2 && (y2 < y || (y2 == y && x2 < x)) && 0 <= c < 4
                        ==> #[trigger] sample(m@, w, x2, y2, c) == mask_byte(
                        in_bands(width, height, radius, x2, y2),
                        c,
                    ),
            decreases width - x,
        {
            let opaque = (radius <= x && x < width - radius) || (radius <= y && y < height
                - radius);
            let alpha: u8 = if opaque {
                255
            } else {
                0
            };
            let ghost prev = m@;
            m.push(0);
            m.push(0);
            m.push(0);
            m.push(alpha);
            proof {
                assert forall|x2: int, y2: int, c: int|
                    0 <= x2 < width && 0 <= y2 && (y2 < y || (y2 == y && x2 < x + 1)) && 0 <= c
                        < 4 implies #[trigger] sample(m@, w, x2, y2, c) == mask_byte(
                    in_bands(width, height, radius, x2, y2),
                    c,
                ) by {
                    if y2 == y && x2 == x {
                        assert(idx(w, x2, y2, c) == prev.len() + c);
                    } else {
                        lemma_idx_earlier(w, x as int, y as int, x2, y2, c);
                        assert(sample(m@, w, x2, y2, c) == sample(prev, w, x2, y2, c));
                    }
                }
            }
            x += 1;
        }
        proof {
            lemma_idx_next_row(w, y as int);
        }
        y += 1;
    }
    assert(4 * (height as int * width as int) == 4 * width as int * height as int)
        by (nonlinear_arith);
    m
}

/// The mask of a `width` by `height` grid with corners of radius `radius`:
/// two opaque bands, then four opaque circles, on a transparent grid.
pub fn build_mask(width: u32, height: u32, radius: u32) -> (m: Vec<u8>)
    requires
        geometry_ok(width, height, radius),
    ensures
        is_mask(m@, width, height, radius),
{
    let opaque: [u8; 4] = [0, 0, 0, 255];
    assert(opaque@ =~= seq![0u8, 0u8, 0u8, 255u8]);
    let r = radius as i32;
    let right = (width - radius) as i32;
    let bottom = (height - radius) as i32;
    let mut m = fill_bands(width, height, radius);
    draw_filled_circle(&mut m, width, height, (r, r), r, opaque);
    draw_filled_circle(&mut m, width, height, (right, r), r, opaque);
    draw_filled_circle(&mut m, width, height, (r, bottom), r, opaque);
    draw_filled_circle(&mut m, width, height, (right, bottom), r, opaque);
    m
}

} // verus!
