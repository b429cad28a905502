//! Compositing a source grid with the rounded-rectangle mask.
use crate::grid::{
    idx, lemma_idx_bounds, lemma_idx_earlier, lemma_idx_next_row, lemma_idx_of_offset, sample,
    PixelGrid,
};
use crate::codec::{decode_image, decodes_to_grid, encode_image, png_decoded, png_encoded};
use crate::mask::{build_mask, geometry_ok, is_mask, mask_byte, mask_opaque, MAX_SIDE};
use vstd::prelude::*;

verus! {

/// Why rounding the corners of an image gave no result.
#[derive(Debug, Clone, Copy, PartialEq, Eq, Structural)]
pub enum RoundError {
    /// The radius does not fit twice across the image, or a side exceeds `MAX_SIDE`.
    InvalidGeometry,
    /// The requested size is larger than the decoded image. No pixel was
    /// read; the caller is to treat this as a fault and abort.
    OutOfBounds,
    /// The input bytes are not a PNG image.
    Decode,
    /// The rounded image could not be written as PNG.
    Encode,
}

/// Channel `c` of pixel `(x, y)` of the rounded image: the source's colour
/// channels, and the mask's alpha.
pub open spec fn rounded_byte(
    src: Seq<u8>,
    src_width: int,
    width: u32,
    height: u32,
    radius: u32,
    x: int,
    y: int,
    c: int,
) -> u8 {
    if c == 3 {
        mask_byte(mask_opaque(width, height, radius, x, y), c)
    } else {
        sample(src, src_width, x, y, c)
    }
}

/// The bytes of the `width` by `height` rounded image of the source bytes
/// `src`, a grid `src_width` pixels wide.
pub open spec fn rounded_pixels(
    src: Seq<u8>,
    src_width: int,
    width: u32,
    height: u32,
    radius: u32,
) -> Seq<u8> {
    Seq::new(
        (4 * width * height) as nat,
        |i: int|
            rounded_byte(
                src,
                src_width,
                width,
                height,
                radius,
                (i / 4) % (width as int),
                (i / 4) / (width as int),
                i % 4,
            ),
    )
}

/// Copies the colour channels of the top-left `width` by `height` pixels of
/// `src` and takes each pixel's alpha from `mask`.
fn apply_mask(src: &PixelGrid, mask: &Vec<u8>, width: u32, height: u32, radius: u32) -> (out:
    Vec<u8>)
    requires
        src.wf(),
        width <= src.width,
        height <= src.height,
        is_mask(mask@, width, height, radius),
    ensures
        out@ == rounded_pixels(src.data@, src.width as int, width, height, radius),
{
    let ghost w = width as int;
    let ghost sw = src.width as int;
    let src_len = src.data.len();
    let mask_len = mask.len();
    let mut out: Vec<u8> = Vec::new();
    let mut y: u32 = 0;
    while y < height
        invariant
            y <= height,
            w == width,
            sw == src.width,
            src_len == src.data@.len(),
            mask_len == mask@.len(),
            src.wf(),
            width <= src.width,
            height <= src.height,
            is_mask(mask@, width, height, radius),
            out@.len() == idx(w, 0, y as int, 0),
            forall|x2: int, y2: int, c: int|
                0 <= x2 < width && 0 <= y2 < y && 0 <= c < 4 ==> #[trigger] sample(
                    out@,
                    w,
                    x2,
                    y2,
                    c,
                ) == rounded_byte(src.data@, sw, width, height, radius, x2, y2, c),
        decreases height - y,
    {
        let mut x: u32 = 0;
        while x < width
            invariant
                x <= width,
                y < height,
                w == width,
                sw == src.width,
                src_len == src.data@.len(),
                mask_len == mask@.len(),
                src.wf(),
                width <= src.width,
                height <= src.height,
                is_mask(mask@, width, height, radius),
                out@.len() == idx(w, x as int, y as int, 0),
                forall|x2: int, y2: int, c: int|
                    0 <= x2 < width && 0 <= y2 && (y2 < y || (y2 == y && x2 < x)) && 0 <= c < 4
                        ==> #[trigger] sample(out@, w, x2, y2, c) == rounded_byte(
                        src.data@,
                        sw,
                        width,
                        height,
                        radius,
                        x2,
                        y2,
                        c,
                    ),
            decreases width - x,
        {
            proof {
                lemma_idx_bounds(sw, src.height as int, x as int, y as int, 3);
                lemma_idx_bounds(w, height as int, x as int, y as int, 3);
            }
            let s = 4 * (y as usize * src.width as usize + x as usize);
            let m = 4 * (y as usize * width as usize + x as usize);
            let ghost prev = out@;
            out.push(src.data[s]);
            out.push(src.data[s + 1]);
            out.push(src.data[s + 2]);
            out.push(mask[m + 3]);
            proof {
                assert(sample(mask@, w, x as int, y as int, 3) == mask[m + 3]);
                assert forall|x2: int, y2: int, c: int|
                    0 <= x2 < width && 0 <= y2 && (y2 < y || (y2 == y && x2 < x + 1)) && 0 <= c
                        < 4 implies #[trigger] sample(out@, w, x2, y2, c) == rounded_byte(
                    src.data@,
                    sw,
                    width,
                    height,
                    radius,
                    x2,
                    y2,
                    c,
                ) by {
                    if y2 == y && x2 == x {
                        assert(idx(w, x2, y2, c) == prev.len() + c);
                        assert(idx(sw, x2, y2, c) == s + c);
                    } else {
                        lemma_idx_earlier(w, x as int, y as int, x2, y2, c);
                        assert(sample(out@, w, x2, y2, c) == sample(prev, w, x2, y2, c));
                    }
                }
            }
            x += 1;
        }
        proof {
            lemma_idx_next_row(w, y as int);
        }
        y += 1;
    }
    assert(4 * (height as int * width as int) == 4 * width as int * height as int)
        by (nonlinear_arith);
    let ghost expected = rounded_pixels(src.data@, sw, width, height, radius);
    assert forall|i: int| 0 <= i < out@.len() implies out@[i] == expected[i] by {
        lemma_idx_of_offset(w, height as int, i);
        let x2 = (i / 4) % w;
        let y2 = (i / 4) / w;
        assert(sample(out@, w, x2, y2, i % 4) == rounded_byte(
            src.data@,
            sw,
            width,
            height,
            radius,
            x2,
            y2,
            i % 4,
        ));
    }
    assert(out@ =~= expected);
    out
}

/// Rounds the corners of the top-left `width` by `height` pixels of `image`
/// with radius `radius`: the colour channels are kept and each alpha becomes
/// 255 inside the rounded rectangle and 0 outside it.
pub fn process_image(image: &PixelGrid, width: u32, height: u32, radius: u32) -> (r: Result<
    PixelGrid,
    RoundError,
>)
    requires
        image.wf(),
        width <= image.width,
        height <= image.height,
    ensures
        !geometry_ok(width, height, radius) ==> r == Err::<PixelGrid, RoundError>(
            RoundError::InvalidGeometry,
        ),
        geometry_ok(width, height, radius) ==> (r matches Ok(out) && out.width == width
            && out.height == height && out.data@ == rounded_pixels(
            image.data@,
            image.width as int,
            width,
            height,
            radius,
        )),
{
    if !(radius as u64 * 2 <= width as u64 && radius as u64 * 2 <= height as u64 && width
        <= MAX_SIDE && height <= MAX_SIDE) {
        return Err(RoundError::InvalidGeometry);
    }
    let mask = build_mask(width, height, radius);
    let data = apply_mask(image, &mask, width, height, radius);
    Ok(PixelGrid { width, height, data })
}

/// What rounding the corners of the PNG `bytes` gives: the PNG bytes of the
/// rounded `width` by `height` image, or the first reason that there are none.
pub open spec fn rounding_outcome(bytes: Seq<u8>, width: u32, height: u32, radius: u32) -> Result<
    Seq<u8>,
    RoundError,
> {
    if !geometry_ok(width, height, radius) {
        Err(RoundError::InvalidGeometry)
    } else if !decodes_to_grid(bytes) {
        Err(RoundError::Decode)
    } else {
        let (src_width, src_height, src) = png_decoded(bytes).unwrap();
        if !(width <= src_width && height <= src_height) {
            Err(RoundError::OutOfBounds)
        } else {
            match png_encoded(
                width,
                height,
                rounded_pixels(src, src_width as int, width, height, radius),
            ) {
                Some(out) => Ok(out),
                None => Err(RoundError::Encode),
            }
        }
    }
}

/// Decodes the PNG `image_data`, rounds the corners of its top-left `width`
/// by `height` pixels with radius `radius`, and encodes the result as PNG.
/// Bytes that are not a PNG image give `Decode`, never a fault.
pub fn round_corners_png(image_data: &[u8], width: u32, height: u32, radius: u32) -> (r: Result<
    Vec<u8>,
    RoundError,
>)
    ensures
        r matches Ok(out) ==> rounding_outcome(image_data@, width, height, radius) == Ok::<
            Seq<u8>,
            RoundError,
        >(out@),
        r matches Err(e) ==> rounding_outcome(image_data@, width, height, radius) == Err::<
            Seq<u8>,
            RoundError,
        >(e),
        geometry_ok(width, height, radius) && !decodes_to_grid(image_data@) ==> r
            == Err::<Vec<u8>, RoundError>(RoundError::Decode),
{
    if !(radius as u64 * 2 <= width as u64 && radius as u64 * 2 <= height as u64 && width
        <= MAX_SIDE && height <= MAX_SIDE) {
        return Err(RoundError::InvalidGeometry);
    }
    let image = decode_image(image_data)?;
    if !(width <= image.width && height <= image.height) {
        return Err(RoundError::OutOfBounds);
    }
    let rounded = process_image(&image, width, height, radius)?;
    encode_image(&rounded)
}

} // verus!
