//! Reading and writing PNG through the `image` crate.
use crate::corners::RoundError;
use crate::grid::{fits_grid, PixelGrid};
use vstd::prelude::*;

verus! {

/// The error type of the `image` crate, carried through without inspection.
#[verifier::external_type_specification]
#[verifier::external_body]
pub struct ExImageError(image::ImageError);

/// What decoding `bytes` as PNG and converting the image to 8-bit RGBA gives:
/// its width, its height and its pixel bytes; `None` where decoding fails.
pub uninterp spec fn png_decoded(bytes: Seq<u8>) -> Option<(u32, u32, Seq<u8>)>;

/// The PNG encoding of a `width` by `height` 8-bit RGBA image with bytes
/// `pixels`; `None` where encoding fails.
pub uninterp spec fn png_encoded(width: u32, height: u32, pixels: Seq<u8>) -> Option<Seq<u8>>;

/// Relies on image::load_from_memory_with_format with the PNG format, and on
/// DynamicImage::into_rgba8 to give its pixels as 8-bit RGBA.
#[verifier::external_body]
fn decode_png(bytes: &[u8]) -> (r: Result<(u32, u32, Vec<u8>), image::ImageError>)
    ensures
        match r {
            Ok((w, h, data)) => png_decoded(bytes@) == Some((w, h, data@)),
            Err(_) => png_decoded(bytes@) is None,
        },
{
    let rgba = image::load_from_memory_with_format(bytes, image::ImageFormat::Png)?.into_rgba8();
    Ok((rgba.width(), rgba.height(), rgba.into_raw()))
}

/// Relies on image::write_buffer_with_format with the PNG format and 8-bit
/// RGBA colour, writing into memory.
#[verifier::external_body]
fn encode_png(width: u32, height: u32, pixels: &[u8]) -> (r: Result<Vec<u8>, image::ImageError>)
    requires
        pixels@.len() == 4 * width * height,
    ensures
        match r {
            Ok(out) => png_encoded(width, height, pixels@) == Some(out@),
            Err(_) => png_encoded(width, height, pixels@) is None,
        },
{
    let mut out: Vec<u8> = Vec::new();
    image::write_buffer_with_format(
        &mut std::io::Cursor::new(&mut out),
        pixels,
        width,
        height,
        image::ExtendedColorType::Rgba8,
        image::ImageFormat::Png,
    )?;
    Ok(out)
}

/// The decoded image holds four bytes for each of its pixels.
pub open spec fn decodes_to_grid(bytes: Seq<u8>) -> bool {
    png_decoded(bytes) matches Some((w, h, data)) && data.len() == 4 * w * h
}

/// Decodes PNG bytes into an RGBA grid.
pub fn decode_image(bytes: &[u8]) -> (r: Result<PixelGrid, RoundError>)
    ensures
        r is Ok <==> decodes_to_grid(bytes@),
        r matches Ok(g) ==> g.wf() && png_decoded(bytes@) == Some((g.width, g.height, g.data@)),
        r matches Err(e) ==> e == RoundError::Decode,
{
    match decode_png(bytes) {
        Ok((width, height, data)) => {
            if fits_grid(width, height, data.len()) {
                Ok(PixelGrid { width, height, data })
            } else {
                Err(RoundError::Decode)
            }
        },
        Err(_) => Err(RoundError::Decode),
    }
}

/// Encodes an RGBA grid as PNG bytes.
pub fn encode_image(grid: &PixelGrid) -> (r: Result<Vec<u8>, RoundError>)
    requires
        grid.wf(),
    ensures
        match png_encoded(grid.width, grid.height, grid.data@) {
            Some(bytes) => r matches Ok(out) && out@ == bytes,
            None => r == Err::<Vec<u8>, RoundError>(RoundError::Encode),
        },
{
    match encode_png(grid.width, grid.height, grid.data.as_slice()) {
        Ok(out) => Ok(out),
        Err(_) => Err(RoundError::Encode),
    }
}

} // verus!
