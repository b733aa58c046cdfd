use emubayer::ifd::{check_entries, serialize_entries, IfdEntry, IfdValue};
use emubayer::image::RawImage;
use emubayer::pattern::BayerPattern;

fn read_u16(f: &[u8], at: usize) -> u32 {
    f[at] as u32 + 256 * f[at + 1] as u32
}

fn read_u32(f: &[u8], at: usize) -> u32 {
    f[at] as u32 + 256 * f[at + 1] as u32 + 65536 * f[at + 2] as u32
        + 16777216 * f[at + 3] as u32
}

fn grid_4x2() -> RawImage {
    RawImage {
        width: 4,
        height: 2,
        data: vec![10, 20, 30, 40, 50, 60, 70, 80],
        bayer_pattern: BayerPattern::GRBG,
    }
}

/// Total file size is header + table + out-of-line blocks + strip, and
/// the recorded StripByteCounts is width * height * 2.
#[test]
fn test_encode_file_size_and_strip_byte_counts() {
    let f = grid_4x2().encode_dng();
    // 8-byte header, 210-byte table, 112 bytes of rational blocks, strip
    assert_eq!(f.len(), 8 + 210 + 112 + 4 * 2 * 2);
    // StripByteCounts is the 11th record; its value field is at 138
    assert_eq!(read_u32(&f, 138), 16);
}

#[test]
fn test_encode_header_and_directory() {
    let f = grid_4x2().encode_dng();
    // little-endian marker, magic 42, directory at offset 8, 17 entries
    assert_eq!(&f[0..8], &[0x49, 0x49, 42, 0, 8, 0, 0, 0]);
    assert_eq!(read_u16(&f, 8), 17);
    // every record holds a larger tag than the one before it
    let mut previous: u32 = 0;
    for i in 0..17 {
        let tag = read_u16(&f, 10 + 12 * i);
        assert!(previous < tag);
        previous = tag;
    }
    // the terminal next-directory offset is zero
    assert_eq!(read_u32(&f, 214), 0);
}

/// Following each recorded offset from the start of the file lands on
/// the referenced data, and the directory recovers what was encoded.
#[test]
fn test_encode_offsets_follow_to_blocks() {
    let grid = grid_4x2();
    let f = grid.encode_dng();
    // ImageWidth and ImageLength records recover the grid dimensions
    assert_eq!(read_u16(&f, 22), 256);
    assert_eq!(read_u32(&f, 30), 4);
    assert_eq!(read_u16(&f, 34), 257);
    assert_eq!(read_u32(&f, 42), 2);
    // BitsPerSample 16, PhotometricInterpretation 32803
    assert_eq!(read_u16(&f, 46), 258);
    assert_eq!(read_u16(&f, 54), 16);
    assert_eq!(read_u16(&f, 70), 262);
    assert_eq!(read_u16(&f, 78), 32803);
    // the CFA pattern record holds the channel map inline
    assert_eq!(read_u16(&f, 154), 33422);
    assert_eq!(&f[162..166], &[1, 0, 2, 1]);
    // the strip record points at the strip, which holds the samples
    assert_eq!(read_u16(&f, 82), 273);
    let strip_offset = read_u32(&f, 90) as usize;
    assert_eq!(strip_offset, 330);
    for (k, &sample) in grid.data.iter().enumerate() {
        assert_eq!(read_u16(&f, strip_offset + 2 * k), sample as u32);
    }
    // the ColorMatrix1 record points at its rational block
    assert_eq!(read_u16(&f, 178), 50721);
    let matrix_offset = read_u32(&f, 186) as usize;
    assert_eq!(matrix_offset, 218);
    assert_eq!(read_u32(&f, matrix_offset), 4124564);
    assert_eq!(read_u32(&f, matrix_offset + 4), 10000000);
    assert_eq!(read_u32(&f, matrix_offset + 64), 9503041);
    // AsShotNeutral and AsShotWhiteXY blocks hold unit rationals
    let neutral_offset = read_u32(&f, 198) as usize;
    assert_eq!(neutral_offset, 290);
    assert_eq!(read_u32(&f, neutral_offset), 1);
    assert_eq!(read_u32(&f, neutral_offset + 4), 1);
    let white_offset = read_u32(&f, 210) as usize;
    assert_eq!(white_offset, 314);
    assert_eq!(read_u32(&f, white_offset + 8), 1);
}

/// An empty grid still yields a complete, well-formed file.
#[test]
fn test_encode_empty_grid() {
    let grid = RawImage {
        width: 0,
        height: 0,
        data: vec![],
        bayer_pattern: BayerPattern::RGGB,
    };
    let f = grid.encode_dng();
    assert_eq!(f.len(), 330);
    assert_eq!(read_u32(&f, 90), 330);
    assert_eq!(read_u32(&f, 138), 0);
}

/// DNGVersion 1.4.0.0 is recorded.
#[test]
fn test_encode_dng_version() {
    let f = grid_4x2().encode_dng();
    assert_eq!(read_u16(&f, 166), 50706);
    assert_eq!(&f[174..178], &[1, 4, 0, 0]);
}

/// The general directory serializer accepts ascending tags and refuses
/// everything else.
#[test]
fn test_check_entries_requires_ascending_tags() {
    let sorted = vec![
        IfdEntry { tag: 1, value: IfdValue::Bytes(vec![5]) },
        IfdEntry { tag: 2, value: IfdValue::Shorts(vec![1, 2, 3]) },
    ];
    assert!(check_entries(&sorted));
    let duplicate = vec![
        IfdEntry { tag: 7, value: IfdValue::Bytes(vec![5]) },
        IfdEntry { tag: 7, value: IfdValue::Longs(vec![1]) },
    ];
    assert!(!check_entries(&duplicate));
    let unsorted = vec![
        IfdEntry { tag: 9, value: IfdValue::Bytes(vec![5]) },
        IfdEntry { tag: 3, value: IfdValue::Longs(vec![1]) },
    ];
    assert!(!check_entries(&unsorted));
}

/// A small directory serializes to the documented layout: an inline
/// BYTE value, and a SHORT array moved out of line.
#[test]
fn test_serialize_small_directory() {
    let entries = vec![
        IfdEntry { tag: 1, value: IfdValue::Bytes(vec![5]) },
        IfdEntry { tag: 2, value: IfdValue::Shorts(vec![256, 2, 3]) },
    ];
    assert!(check_entries(&entries));
    let f = serialize_entries(&entries);
    // header, count 2, two records, zero offset, one 6-byte block
    assert_eq!(f.len(), 8 + 2 + 24 + 4 + 6);
    assert_eq!(read_u16(&f, 8), 2);
    // record one: tag 1, type BYTE, count 1, value 5 inline, zero-padded
    assert_eq!(read_u16(&f, 10), 1);
    assert_eq!(read_u16(&f, 12), 1);
    assert_eq!(read_u32(&f, 14), 1);
    assert_eq!(&f[18..22], &[5, 0, 0, 0]);
    // record two: tag 2, type SHORT, count 3, offset of the block
    assert_eq!(read_u16(&f, 22), 2);
    assert_eq!(read_u16(&f, 24), 3);
    assert_eq!(read_u32(&f, 26), 3);
    let offset = read_u32(&f, 30) as usize;
    assert_eq!(offset, 38);
    assert_eq!(&f[38..44], &[0, 1, 2, 0, 3, 0]);
}
