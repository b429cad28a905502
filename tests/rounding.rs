use rounded_corners::{
    decode_image, encode_image, process_image, round_corners_png, PixelGrid,
    RoundError, MAX_SIDE,
};

fn filled(width: u32, height: u32, rgba: [u8; 4]) -> PixelGrid {
    let mut data = Vec::new();
    for _ in 0..width * height {
        data.extend_from_slice(&rgba);
    }
    PixelGrid::new(width, height, data).unwrap()
}

fn gradient(width: u32, height: u32) -> PixelGrid {
    let mut data = Vec::new();
    for y in 0..height {
        for x in 0..width {
            data.extend_from_slice(&[(x * 10) as u8, (y * 10) as u8, (x + y) as u8, 200]);
        }
    }
    PixelGrid::new(width, height, data).unwrap()
}

fn png_of(grid: &PixelGrid) -> Vec<u8> {
    let image = image::RgbaImage::from_raw(grid.width, grid.height, grid.data.clone()).unwrap();
    let mut out = Vec::new();
    image
        .write_to(&mut std::io::Cursor::new(&mut out), image::ImageFormat::Png)
        .unwrap();
    out
}

/// The PNG bytes of the rounded image, or no bytes where rounding fails.
fn rounded_png(bytes: &[u8], width: u32, height: u32, radius: u32) -> Vec<u8> {
    round_corners_png(bytes, width, height, radius).unwrap_or_default()
}

fn alphas(grid: &PixelGrid) -> Vec<Vec<u8>> {
    (0..grid.height)
        .map(|y| (0..grid.width).map(|x| grid.pixel(x, y)[3]).collect())
        .collect()
}

#[test]
fn zero_radius_is_fully_opaque() {
    for n in [1u32, 2, 5, 8] {
        let src = gradient(n, n);
        let out = process_image(&src, n, n, 0).unwrap();
        for y in 0..n {
            for x in 0..n {
                let p = out.pixel(x, y);
                let s = src.pixel(x, y);
                assert_eq!(p[3], 255);
                assert_eq!(&p[..3], &s[..3]);
            }
        }
    }
}

#[test]
fn radius_one_corners_follow_the_disk() {
    let src = gradient(6, 5);
    let out = process_image(&src, 6, 5, 1).unwrap();
    let centres = [(1i64, 1i64), (5, 1), (1, 4), (5, 4)];
    for y in 0..5u32 {
        for x in 0..6u32 {
            let corner = (x < 1 || x >= 5) && (y < 1 || y >= 4);
            let inside = if corner {
                centres.iter().any(|&(cx, cy)| {
                    let dx = x as i64 - cx;
                    let dy = y as i64 - cy;
                    dx * dx + dy * dy <= 1
                })
            } else {
                true
            };
            let p = out.pixel(x, y);
            assert_eq!(p[3], if inside { 255 } else { 0 }, "pixel ({}, {})", x, y);
            assert_eq!(&p[..3], &src.pixel(x, y)[..3]);
        }
    }
}

#[test]
fn radius_two_corner_shape() {
    let src = filled(8, 8, [9, 8, 7, 255]);
    let out = process_image(&src, 8, 8, 2).unwrap();
    let a = alphas(&out);
    assert_eq!(a[0], vec![0, 255, 255, 255, 255, 255, 255, 255]);
    assert_eq!(a[1], vec![255; 8]);
    // The lower circles are centred `radius` above the bottom edge, one row
    // closer to the last row than the upper ones are to the first.
    assert_eq!(a[7], vec![255; 8]);
}

#[test]
fn png_round_trip_gives_the_masked_grid() {
    let src = gradient(7, 6);
    let bytes = rounded_png(&png_of(&src), 7, 6, 2);
    assert!(!bytes.is_empty());
    assert_eq!(&bytes[..8], &[0x89, b'P', b'N', b'G', 0x0d, 0x0a, 0x1a, 0x0a]);
    let decoded = decode_image(&bytes).unwrap();
    let expected = process_image(&src, 7, 6, 2).unwrap();
    assert_eq!(decoded.width, 7);
    assert_eq!(decoded.height, 6);
    assert_eq!(decoded.data, expected.data);
}

#[test]
fn encode_then_decode_is_lossless() {
    let src = gradient(3, 4);
    let bytes = encode_image(&src).unwrap();
    let back = decode_image(&bytes).unwrap();
    assert_eq!(back.width, 3);
    assert_eq!(back.height, 4);
    assert_eq!(back.data, src.data);
}

#[test]
fn malformed_input_gives_no_bytes() {
    let good = png_of(&filled(4, 4, [1, 2, 3, 4]));
    let mut wrong_magic = good.clone();
    wrong_magic[1] = b'Q';
    let inputs: [&[u8]; 4] = [&[], b"not an image", &good[..12], &wrong_magic];
    for bytes in inputs {
        assert_eq!(round_corners_png(bytes, 4, 4, 1), Err(RoundError::Decode));
        assert!(rounded_png(bytes, 4, 4, 1).is_empty());
    }
    assert_eq!(decode_image(b"GIF89a").map(|g| g.width), Err(RoundError::Decode));
}

#[test]
fn white_four_by_four_radius_one() {
    let src = filled(4, 4, [255, 255, 255, 255]);
    let bytes = rounded_png(&png_of(&src), 4, 4, 1);
    let out = decode_image(&bytes).unwrap();
    assert_eq!((out.width, out.height), (4, 4));
    for y in 0..4 {
        for x in 0..4 {
            let p = out.pixel(x, y);
            assert_eq!(&p[..3], &[255, 255, 255]);
            // The circles are centred `radius` in from the right and bottom
            // edges, so only the top-left corner falls outside all of them.
            let expected = if (x, y) == (0, 0) { 0 } else { 255 };
            assert_eq!(p[3], expected, "pixel ({}, {})", x, y);
        }
    }
}

#[test]
fn rounding_twice_changes_nothing() {
    for r in 0..4u32 {
        let src = gradient(9, 8);
        let once = process_image(&src, 9, 8, r).unwrap();
        let twice = process_image(&once, 9, 8, r).unwrap();
        assert_eq!(twice.data, once.data);
        let bytes = rounded_png(&png_of(&src), 9, 8, r);
        let again = rounded_png(&bytes, 9, 8, r);
        assert_eq!(decode_image(&again).unwrap().data, once.data);
    }
}

#[test]
fn rounds_only_the_requested_region() {
    let src = gradient(6, 6);
    let out = process_image(&src, 4, 3, 1).unwrap();
    assert_eq!((out.width, out.height), (4, 3));
    assert_eq!(out.data.len(), 4 * 4 * 3);
    assert_eq!(out.pixel(3, 2), [30, 20, 5, 255]);
    assert_eq!(out.pixel(1, 1), [10, 10, 2, 255]);
}

#[test]
fn invalid_geometry_is_refused() {
    let src = filled(4, 4, [0, 0, 0, 255]);
    assert_eq!(process_image(&src, 4, 4, 3).map(|g| g.width), Err(RoundError::InvalidGeometry));
    assert_eq!(process_image(&src, 4, 2, 2).map(|g| g.width), Err(RoundError::InvalidGeometry));
    assert_eq!(
        process_image(&src, 4, 4, u32::MAX).map(|g| g.width),
        Err(RoundError::InvalidGeometry)
    );
    assert_eq!(
        process_image(&src, MAX_SIDE + 1, 4, 0).map(|g| g.width),
        Err(RoundError::InvalidGeometry)
    );
    assert_eq!(round_corners_png(&[], 4, 4, 3), Err(RoundError::InvalidGeometry));
    assert!(rounded_png(&png_of(&src), 4, 4, 3).is_empty());
}

#[test]
fn radius_of_half_the_side_is_accepted() {
    let src = filled(4, 4, [5, 5, 5, 255]);
    let out = process_image(&src, 4, 4, 2).unwrap();
    let a = alphas(&out);
    assert_eq!(a[2], vec![255, 255, 255, 255]);
    assert_eq!(a[0][0], 0);
}

#[test]
fn size_beyond_the_image_is_out_of_bounds() {
    let src = filled(3, 3, [1, 1, 1, 255]);
    assert_eq!(round_corners_png(&png_of(&src), 3, 5, 1), Err(RoundError::OutOfBounds));
    assert_eq!(round_corners_png(&png_of(&src), 4, 3, 0), Err(RoundError::OutOfBounds));
}

#[test]
fn empty_image_cannot_be_encoded() {
    let empty = PixelGrid::new(0, 0, Vec::new()).unwrap();
    assert_eq!(encode_image(&empty), Err(RoundError::Encode));
    let src = filled(2, 2, [1, 1, 1, 255]);
    assert_eq!(round_corners_png(&png_of(&src), 0, 0, 0), Err(RoundError::Encode));
}

#[test]
fn grid_new_checks_the_length() {
    assert!(PixelGrid::new(2, 2, vec![0; 16]).is_some());
    assert!(PixelGrid::new(2, 2, vec![0; 15]).is_none());
    assert!(PixelGrid::new(2, 2, vec![0; 17]).is_none());
    let g = PixelGrid::new(2, 1, vec![1, 2, 3, 4, 5, 6, 7, 8]).unwrap();
    assert_eq!(g.pixel(1, 0), [5, 6, 7, 8]);
}
