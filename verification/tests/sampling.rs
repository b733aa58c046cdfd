use emubayer::image::{BitDepth, ColorType, RgbImage};
use emubayer::pattern::BayerPattern;

/// An 8x8 16-bit RGB buffer where every pixel carries R=1, G=2, B=3,
/// stored big-endian as a PNG decoder hands it over.
fn input_data() -> Vec<u8> {
    let mut v: Vec<u8> = Vec::new();
    for _ in 0..64 {
        v.extend_from_slice(&[0, 1, 0, 2, 0, 3]);
    }
    v
}

fn test_image() -> RgbImage {
    RgbImage {
        width: 8,
        height: 8,
        data: input_data(),
        color_type: ColorType::RGB,
        bit_depth: BitDepth::Sixteen,
    }
}

#[test]
fn test_image_extract_rggb() {
    let raw_image = test_image().to_raw(BayerPattern::RGGB);

    assert_eq!(raw_image.data, vec![
        1, 2, 1, 2, 1, 2, 1, 2,
        2, 3, 2, 3, 2, 3, 2, 3,
        1, 2, 1, 2, 1, 2, 1, 2,
        2, 3, 2, 3, 2, 3, 2, 3,
        1, 2, 1, 2, 1, 2, 1, 2,
        2, 3, 2, 3, 2, 3, 2, 3,
        1, 2, 1, 2, 1, 2, 1, 2,
        2, 3, 2, 3, 2, 3, 2, 3,
    ]);
}

#[test]
fn test_image_extract_bggr() {
    let raw_image = test_image().to_raw(BayerPattern::BGGR);

    assert_eq!(raw_image.data, vec![
        3, 2, 3, 2, 3, 2, 3, 2,
        2, 1, 2, 1, 2, 1, 2, 1,
        3, 2, 3, 2, 3, 2, 3, 2,
        2, 1, 2, 1, 2, 1, 2, 1,
        3, 2, 3, 2, 3, 2, 3, 2,
        2, 1, 2, 1, 2, 1, 2, 1,
        3, 2, 3, 2, 3, 2, 3, 2,
        2, 1, 2, 1, 2, 1, 2, 1,
    ]);
}

#[test]
fn test_image_extract_grbg() {
    let raw_image = test_image().to_raw(BayerPattern::GRBG);

    assert_eq!(raw_image.data, vec![
        2, 1, 2, 1, 2, 1, 2, 1,
        3, 2, 3, 2, 3, 2, 3, 2,
        2, 1, 2, 1, 2, 1, 2, 1,
        3, 2, 3, 2, 3, 2, 3, 2,
        2, 1, 2, 1, 2, 1, 2, 1,
        3, 2, 3, 2, 3, 2, 3, 2,
        2, 1, 2, 1, 2, 1, 2, 1,
        3, 2, 3, 2, 3, 2, 3, 2,
    ]);
}

#[test]
fn test_image_extract_gbrg() {
    let raw_image = test_image().to_raw(BayerPattern::GBRG);

    assert_eq!(raw_image.data, vec![
        2, 3, 2, 3, 2, 3, 2, 3,
        1, 2, 1, 2, 1, 2, 1, 2,
        2, 3, 2, 3, 2, 3, 2, 3,
        1, 2, 1, 2, 1, 2, 1, 2,
        2, 3, 2, 3, 2, 3, 2, 3,
        1, 2, 1, 2, 1, 2, 1, 2,
        2, 3, 2, 3, 2, 3, 2, 3,
        1, 2, 1, 2, 1, 2, 1, 2,
    ]);
}

/// An 8-bit source sample lands in the high byte of the 16-bit output.
#[test]
fn test_extract_8bit_scales_to_high_byte() {
    let mut data: Vec<u8> = Vec::new();
    for _ in 0..4 {
        data.extend_from_slice(&[1, 2, 3]);
    }
    let image = RgbImage {
        width: 2,
        height: 2,
        data,
        color_type: ColorType::RGB,
        bit_depth: BitDepth::Eight,
    };
    let raw = image.to_raw(BayerPattern::RGGB);
    assert_eq!(raw.data, vec![256, 512, 512, 768]);
}

/// A 16-bit sample passes through unchanged, read big-endian.
#[test]
fn test_extract_16bit_passthrough() {
    // one 2x2 block, RGBA, every channel value distinct
    let mut data: Vec<u8> = Vec::new();
    for p in 0..4u16 {
        let base = 0x1230 + p * 4;
        for c in 0..4u16 {
            let v = base + c;
            data.push((v >> 8) as u8);
            data.push((v & 0xFF) as u8);
        }
    }
    let image = RgbImage {
        width: 2,
        height: 2,
        data,
        color_type: ColorType::RGBA,
        bit_depth: BitDepth::Sixteen,
    };
    let raw = image.to_raw(BayerPattern::RGGB);
    // RGGB picks R of pixel 0, G of pixels 1 and 2, B of pixel 3
    assert_eq!(raw.data, vec![0x1230, 0x1235, 0x1239, 0x123E]);
}

/// Odd dimensions are truncated to even ones: at most one row and one
/// column are dropped, and the output dimensions are always even.
#[test]
fn test_odd_dimensions_truncated() {
    let data = vec![9; 3 * 3 * 3];
    let image = RgbImage {
        width: 3,
        height: 3,
        data,
        color_type: ColorType::RGB,
        bit_depth: BitDepth::Eight,
    };
    assert_eq!(image.even_width(), 2);
    assert_eq!(image.even_height(), 2);
    assert_eq!(image.even_size(), 4);
    let raw = image.to_raw(BayerPattern::RGGB);
    assert_eq!(raw.width, 2);
    assert_eq!(raw.height, 2);
    assert_eq!(raw.data.len(), 4);
}

/// A source narrower than one block yields an empty grid, not a crash.
#[test]
fn test_degenerate_dimensions_empty_grid() {
    let image = RgbImage {
        width: 1,
        height: 5,
        data: vec![7; 15],
        color_type: ColorType::RGB,
        bit_depth: BitDepth::Eight,
    };
    let raw = image.to_raw(BayerPattern::GBRG);
    assert_eq!(raw.width, 0);
    assert_eq!(raw.height, 4);
    assert_eq!(raw.data.len(), 0);
}
