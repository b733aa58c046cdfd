use emubayer::error::Error;
use emubayer::image::{BitDepth, ColorType, RgbImage};
use emubayer::pattern::BayerPattern;

/// The fixed channel-offset table (0 = red, 1 = green, 2 = blue), in
/// position order top-left, top-right, bottom-left, bottom-right.
#[test]
fn test_channel_offsets_table() {
    assert_eq!(BayerPattern::RGGB.color_offsets(), vec![0, 1, 1, 2]);
    assert_eq!(BayerPattern::BGGR.color_offsets(), vec![2, 1, 1, 0]);
    assert_eq!(BayerPattern::GRBG.color_offsets(), vec![1, 0, 2, 1]);
    assert_eq!(BayerPattern::GBRG.color_offsets(), vec![1, 2, 0, 1]);
}

/// Repeated lookups return the same table.
#[test]
fn test_channel_offsets_stable() {
    let first = BayerPattern::GRBG.color_offsets();
    let second = BayerPattern::GRBG.color_offsets();
    assert_eq!(first, second);
}

#[test]
fn test_from_str_case_and_whitespace() {
    assert_eq!(BayerPattern::from_str("rggb"), Ok(BayerPattern::RGGB));
    assert_eq!(BayerPattern::from_str("RGGB"), Ok(BayerPattern::RGGB));
    assert_eq!(BayerPattern::from_str(" Rggb "), Ok(BayerPattern::RGGB));
    assert_eq!(BayerPattern::from_str("bggr"), Ok(BayerPattern::BGGR));
    assert_eq!(BayerPattern::from_str("\tGrBg\n"), Ok(BayerPattern::GRBG));
    assert_eq!(BayerPattern::from_str("gbrg"), Ok(BayerPattern::GBRG));
}

#[test]
fn test_from_str_rejects_other_input() {
    assert_eq!(BayerPattern::from_str("xyz"), Err(Error::InvalidPatternString));
    assert_eq!(BayerPattern::from_str(""), Err(Error::InvalidPatternString));
    assert_eq!(BayerPattern::from_str("RGGBX"), Err(Error::InvalidPatternString));
    assert_eq!(BayerPattern::from_str("RG GB"), Err(Error::InvalidPatternString));
}

/// The display name parses back to the same pattern.
#[test]
fn test_name_parses_back() {
    for p in [
        BayerPattern::RGGB,
        BayerPattern::BGGR,
        BayerPattern::GRBG,
        BayerPattern::GBRG,
    ] {
        assert_eq!(BayerPattern::from_str(p.name()), Ok(p));
    }
}

#[test]
fn test_pattern_names() {
    assert_eq!(BayerPattern::RGGB.name(), "RGGB");
    assert_eq!(BayerPattern::BGGR.name(), "BGGR");
    assert_eq!(BayerPattern::GRBG.name(), "GRBG");
    assert_eq!(BayerPattern::GBRG.name(), "GBRG");
}

/// A grayscale or indexed image is refused with the specific kind.
#[test]
fn test_from_decoded_unsupported_color_type() {
    let r = RgbImage::from_decoded(2, 2, 0, 8, vec![0; 4]);
    assert_eq!(r.err(), Some(Error::UnsupportedColorType));
    let r = RgbImage::from_decoded(2, 2, 3, 8, vec![0; 4]);
    assert_eq!(r.err(), Some(Error::UnsupportedColorType));
}

/// A bit depth other than 8 or 16 is refused with the specific kind.
#[test]
fn test_from_decoded_unsupported_bit_depth() {
    let r = RgbImage::from_decoded(2, 2, 2, 4, vec![0; 6]);
    assert_eq!(r.err(), Some(Error::UnsupportedBitDepth));
    let r = RgbImage::from_decoded(2, 2, 6, 1, vec![0; 4]);
    assert_eq!(r.err(), Some(Error::UnsupportedBitDepth));
}

/// A buffer that does not match the declared geometry is a decoder
/// fault.
#[test]
fn test_from_decoded_wrong_buffer_length() {
    let r = RgbImage::from_decoded(2, 2, 2, 8, vec![0; 11]);
    assert_eq!(r.err(), Some(Error::FrameDecodeError));
}

#[test]
fn test_from_decoded_accepts_rgb_and_rgba() {
    let img = RgbImage::from_decoded(2, 1, 2, 8, vec![1, 2, 3, 4, 5, 6]).unwrap();
    assert_eq!(img.width, 2);
    assert_eq!(img.height, 1);
    assert!(matches!(img.color_type, ColorType::RGB));
    assert!(matches!(img.bit_depth, BitDepth::Eight));
    let img = RgbImage::from_decoded(1, 1, 6, 16, vec![0; 8]).unwrap();
    assert!(matches!(img.color_type, ColorType::RGBA));
    assert!(matches!(img.bit_depth, BitDepth::Sixteen));
}

#[test]
fn test_error_messages() {
    assert_eq!(Error::InputOpenError.message(), "PNG image couldn't be opened.");
    assert_eq!(Error::InputDecodeError.message(), "This PNG file appears to be corrupted.");
    assert_eq!(
        Error::UnsupportedColorType.message(),
        "PNG image needs to be RGB or RGBA Color Type."
    );
    assert_eq!(
        Error::UnsupportedBitDepth.message(),
        "PNG image needs to have 8 or 16 Bit Depth."
    );
    assert_eq!(
        Error::FrameDecodeError.message(),
        "An error occurred interpreting this PNG image."
    );
    assert_eq!(Error::OutputWriteError.message(), "The DNG file couldn't be written.");
    assert!(Error::InvalidPatternString.message().contains("RGGB"));
}
