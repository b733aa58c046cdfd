//! Encoding a raw sensor grid as a DNG file: a minimal TIFF with one
//! directory, the fixed DNG tag set, and the samples in a single
//! uncompressed little-endian strip.

use vstd::prelude::*;

verus! {

use crate::bytes::push_u16_le;
use crate::ifd::{
    bytes_of_longs, bytes_of_shorts, bytes_of_srationals, ifd_file_bytes, serialize_entries,
    views_of, wf_entries, EntryView, IfdEntry, IfdValue,
};
use crate::image::RawImage;
use crate::pattern::BayerPattern;

/// The fixed camera-to-XYZ color matrix recorded as ColorMatrix1: the
/// sRGB-to-XYZ coefficients as rationals over ten million.
pub open spec fn dng_color_matrix() -> Seq<(i32, i32)> {
    seq![
        (4124564i32, 10000000i32),
        (3575761i32, 10000000i32),
        (1804375i32, 10000000i32),
        (2126729i32, 10000000i32),
        (7151522i32, 10000000i32),
        (721750i32, 10000000i32),
        (193339i32, 10000000i32),
        (1191920i32, 10000000i32),
        (9503041i32, 10000000i32),
    ]
}

/// The neutral white balance recorded as AsShotNeutral.
pub open spec fn dng_as_shot_neutral() -> Seq<(i32, i32)> {
    seq![(1i32, 1i32), (1i32, 1i32), (1i32, 1i32)]
}

/// The white point recorded as AsShotWhiteXY.
pub open spec fn dng_as_shot_white_xy() -> Seq<(i32, i32)> {
    seq![(1i32, 1i32), (1i32, 1i32)]
}

/// The directory a grid serializes to, in ascending tag order:
/// NewSubfileType 254, ImageWidth 256, ImageLength 257, BitsPerSample
/// 258, Compression 259, PhotometricInterpretation 262, StripOffsets
/// 273, Orientation 274, SamplesPerPixel 277, RowsPerStrip 278,
/// StripByteCounts 279, CFARepeatPatternDim 33421, CFAPattern 33422,
/// DNGVersion 50706, ColorMatrix1 50721, AsShotNeutral 50728,
/// AsShotWhiteXY 50729.
pub open spec fn dng_entry_views(
    width: u32,
    height: u32,
    pattern: BayerPattern,
    samples: Seq<u16>,
) -> Seq<EntryView> {
    seq![
        EntryView { tag: 254, type_code: 4, count: 1, data: bytes_of_longs(seq![0u32]), strip: false },
        EntryView { tag: 256, type_code: 4, count: 1, data: bytes_of_longs(seq![width]), strip: false },
        EntryView { tag: 257, type_code: 4, count: 1, data: bytes_of_longs(seq![height]), strip: false },
        EntryView { tag: 258, type_code: 3, count: 1, data: bytes_of_shorts(seq![16u16]), strip: false },
        EntryView { tag: 259, type_code: 3, count: 1, data: bytes_of_shorts(seq![1u16]), strip: false },
        EntryView { tag: 262, type_code: 3, count: 1, data: bytes_of_shorts(seq![32803u16]), strip: false },
        EntryView { tag: 273, type_code: 4, count: 1, data: bytes_of_shorts(samples), strip: true },
        EntryView { tag: 274, type_code: 3, count: 1, data: bytes_of_shorts(seq![1u16]), strip: false },
        EntryView { tag: 277, type_code: 3, count: 1, data: bytes_of_shorts(seq![1u16]), strip: false },
        EntryView { tag: 278, type_code: 4, count: 1, data: bytes_of_longs(seq![height]), strip: false },
        EntryView {
            tag: 279,
            type_code: 4,
            count: 1,
            data: bytes_of_longs(seq![((width * height * 2) as u32)]),
            strip: false,
        },
        EntryView { tag: 33421, type_code: 3, count: 2, data: bytes_of_shorts(seq![2u16, 2u16]), strip: false },
        EntryView { tag: 33422, type_code: 1, count: 4, data: pattern.spec_offsets(), strip: false },
        EntryView { tag: 50706, type_code: 1, count: 4, data: seq![1u8, 4u8, 0u8, 0u8], strip: false },
        EntryView {
            tag: 50721,
            type_code: 10,
            count: 9,
            data: bytes_of_srationals(dng_color_matrix()),
            strip: false,
        },
        EntryView {
            tag: 50728,
            type_code: 10,
            count: 3,
            data: bytes_of_srationals(dng_as_shot_neutral()),
            strip: false,
        },
        EntryView {
            tag: 50729,
            type_code: 10,
            count: 2,
            data: bytes_of_srationals(dng_as_shot_white_xy()),
            strip: false,
        },
    ]
}

/// The complete DNG file a grid serializes to.
pub open spec fn dng_file(
    width: u32,
    height: u32,
    pattern: BayerPattern,
    samples: Seq<u16>,
) -> Seq<u8> {
    ifd_file_bytes(dng_entry_views(width, height, pattern, samples))
}

/// Builds an entry holding a single LONG value.
fn ifd_long(tag: u16, v: u32) -> (e: IfdEntry)
    ensures
        e@ == (EntryView {
            tag,
            type_code: 4,
            count: 1,
            data: bytes_of_longs(seq![v]),
            strip: false,
        }),
{
    let mut values: Vec<u32> = Vec::new();
    values.push(v);
    proof {
        assert(values@ =~= seq![v]);
    }
    IfdEntry { tag, value: IfdValue::Longs(values) }
}

/// Builds an entry holding a single SHORT value.
fn ifd_short(tag: u16, v: u16) -> (e: IfdEntry)
    ensures
        e@ == (EntryView {
            tag,
            type_code: 3,
            count: 1,
            data: bytes_of_shorts(seq![v]),
            strip: false,
        }),
{
    let mut values: Vec<u16> = Vec::new();
    values.push(v);
    proof {
        assert(values@ =~= seq![v]);
    }
    IfdEntry { tag, value: IfdValue::Shorts(values) }
}

/// Builds an entry holding two SHORT values.
fn ifd_short_pair(tag: u16, a: u16, b: u16) -> (e: IfdEntry)
    ensures
        e@ == (EntryView {
            tag,
            type_code: 3,
            count: 2,
            data: bytes_of_shorts(seq![a, b]),
            strip: false,
        }),
{
    let mut values: Vec<u16> = Vec::new();
    values.push(a);
    values.push(b);
    proof {
        assert(values@ =~= seq![a, b]);
    }
    IfdEntry { tag, value: IfdValue::Shorts(values) }
}

/// Builds an entry holding four BYTE values.
fn ifd_byte_quad(tag: u16, a: u8, b: u8, c: u8, d: u8) -> (e: IfdEntry)
    ensures
        e@ == (EntryView { tag, type_code: 1, count: 4, data: seq![a, b, c, d], strip: false }),
{
    let mut values: Vec<u8> = Vec::new();
    values.push(a);
    values.push(b);
    values.push(c);
    values.push(d);
    proof {
        assert(values@ =~= seq![a, b, c, d]);
    }
    IfdEntry { tag, value: IfdValue::Bytes(values) }
}

/// The ColorMatrix1 coefficients as a vector.
fn color_matrix_values() -> (v: Vec<(i32, i32)>)
    ensures
        v@ == dng_color_matrix(),
{
    let mut values: Vec<(i32, i32)> = Vec::new();
    values.push((4124564, 10000000));
    values.push((3575761, 10000000));
    values.push((1804375, 10000000));
    values.push((2126729, 10000000));
    values.push((7151522, 10000000));
    values.push((721750, 10000000));
    values.push((193339, 10000000));
    values.push((1191920, 10000000));
    values.push((9503041, 10000000));
    proof {
        assert(values@ =~= dng_color_matrix());
    }
    values
}

/// The AsShotNeutral values as a vector.
fn as_shot_neutral_values() -> (v: Vec<(i32, i32)>)
    ensures
        v@ == dng_as_shot_neutral(),
{
    let mut values: Vec<(i32, i32)> = Vec::new();
    values.push((1, 1));
    values.push((1, 1));
    values.push((1, 1));
    proof {
        assert(values@ =~= dng_as_shot_neutral());
    }
    values
}

/// The AsShotWhiteXY values as a vector.
fn as_shot_white_xy_values() -> (v: Vec<(i32, i32)>)
    ensures
        v@ == dng_as_shot_white_xy(),
{
    let mut values: Vec<(i32, i32)> = Vec::new();
    values.push((1, 1));
    values.push((1, 1));
    proof {
        assert(values@ =~= dng_as_shot_white_xy());
    }
    values
}

impl RawImage {
    /// Serializes this grid as a complete DNG file.
    ///
    /// The 330 bytes before the strip are the 8-byte header, the
    /// 210-byte entry table, and the 112 bytes of rational data blocks;
    /// the strip itself needs two bytes per sample, and every recorded
    /// offset must fit the 32-bit offset fields.
    pub fn encode_dng(&self) -> (out: Vec<u8>)
        requires
            self.wf(),
            330 + 2 * (self.width * self.height) <= u32::MAX,
        ensures
            out@ == dng_file(self.width, self.height, self.bayer_pattern, self.data@),
    {
        let ghost target = dng_entry_views(
            self.width,
            self.height,
            self.bayer_pattern,
            self.data@,
        );
        let sample_count = self.data.len();
        let mut strip: Vec<u8> = Vec::new();
        let mut k: usize = 0;
        while k < sample_count
            invariant
                0 <= k <= sample_count,
                sample_count == self.data@.len(),
                strip@ == bytes_of_shorts(self.data@.take(k as int)),
            decreases sample_count - k,
        {
            push_u16_le(&mut strip, self.data[k]);
            proof {
                let t = self.data@.take(k + 1int);
                assert(t.drop_last() =~= self.data@.take(k as int));
                assert(t.last() == self.data@[k as int]);
            }
            k = k + 1;
        }
        proof {
            assert(self.data@.take(sample_count as int) =~= self.data@);
        }
        let strip_byte_count: u32 = self.width * self.height * 2;
        let mut entries: Vec<IfdEntry> = Vec::new();
        entries.push(ifd_long(254, 0));
        entries.push(ifd_long(256, self.width));
        entries.push(ifd_long(257, self.height));
        entries.push(ifd_short(258, 16));
        entries.push(ifd_short(259, 1));
        entries.push(ifd_short(262, 32803));
        entries.push(IfdEntry { tag: 273, value: IfdValue::Strip(strip) });
        entries.push(ifd_short(274, 1));
        entries.push(ifd_short(277, 1));
        entries.push(ifd_long(278, self.height));
        entries.push(ifd_long(279, strip_byte_count));
        entries.push(ifd_short_pair(33421, 2, 2));
        entries.push(IfdEntry { tag: 33422, value: IfdValue::Bytes(self.bayer_pattern.color_offsets()) });
        entries.push(ifd_byte_quad(50706, 1, 4, 0, 0));
        entries.push(IfdEntry { tag: 50721, value: IfdValue::SRationals(color_matrix_values()) });
        entries.push(IfdEntry { tag: 50728, value: IfdValue::SRationals(as_shot_neutral_values()) });
        entries.push(IfdEntry { tag: 50729, value: IfdValue::SRationals(as_shot_white_xy_values()) });
        proof {
            assert(views_of(entries@) =~= target);
            lemma_dng_views_wf(self.width, self.height, self.bayer_pattern, self.data@);
        }
        serialize_entries(&entries)
    }
}

/// The directory of a grid is serializable, and its layout sizes are
/// fixed: a 210-byte table, 112 bytes of rational blocks, and the strip.
pub proof fn lemma_dng_views_wf(width: u32, height: u32, pattern: BayerPattern, samples: Seq<u16>)
    requires
        330 + 2 * samples.len() <= u32::MAX,
    ensures
        wf_entries(dng_entry_views(width, height, pattern, samples)),
        crate::ifd::total_size(dng_entry_views(width, height, pattern, samples)) == 330 + 2
            * samples.len(),
        crate::ifd::nonstrip_prefix_size(
            dng_entry_views(width, height, pattern, samples),
            17,
        ) == 112,
        crate::ifd::entry_data_offset(dng_entry_views(width, height, pattern, samples), 6) == 330,
        crate::ifd::entry_data_offset(dng_entry_views(width, height, pattern, samples), 14) == 218,
        crate::ifd::entry_data_offset(dng_entry_views(width, height, pattern, samples), 15) == 290,
        crate::ifd::entry_data_offset(dng_entry_views(width, height, pattern, samples), 16) == 314,
{
    let vs = dng_entry_views(width, height, pattern, samples);
    crate::ifd::lemma_bytes_of_longs_len(seq![0u32]);
    crate::ifd::lemma_bytes_of_longs_len(seq![width]);
    crate::ifd::lemma_bytes_of_longs_len(seq![height]);
    crate::ifd::lemma_bytes_of_longs_len(seq![((width * height * 2) as u32)]);
    crate::ifd::lemma_bytes_of_shorts_len(seq![16u16]);
    crate::ifd::lemma_bytes_of_shorts_len(seq![1u16]);
    crate::ifd::lemma_bytes_of_shorts_len(seq![32803u16]);
    crate::ifd::lemma_bytes_of_shorts_len(seq![2u16, 2u16]);
    crate::ifd::lemma_bytes_of_shorts_len(samples);
    crate::ifd::lemma_bytes_of_srationals_len(dng_color_matrix());
    crate::ifd::lemma_bytes_of_srationals_len(dng_as_shot_neutral());
    crate::ifd::lemma_bytes_of_srationals_len(dng_as_shot_white_xy());
    lemma_pattern_offsets_len(pattern);
    assert(vs.len() == 17);
    assert(crate::ifd::nonstrip_prefix_size(vs, 0) == 0);
    assert(crate::ifd::nonstrip_prefix_size(vs, 1) == 0);
    assert(crate::ifd::nonstrip_prefix_size(vs, 2) == 0);
    assert(crate::ifd::nonstrip_prefix_size(vs, 3) == 0);
    assert(crate::ifd::nonstrip_prefix_size(vs, 4) == 0);
    assert(crate::ifd::nonstrip_prefix_size(vs, 5) == 0);
    assert(crate::ifd::nonstrip_prefix_size(vs, 6) == 0);
    assert(crate::ifd::nonstrip_prefix_size(vs, 7) == 0);
    assert(crate::ifd::nonstrip_prefix_size(vs, 8) == 0);
    assert(crate::ifd::nonstrip_prefix_size(vs, 9) == 0);
    assert(crate::ifd::nonstrip_prefix_size(vs, 10) == 0);
    assert(crate::ifd::nonstrip_prefix_size(vs, 11) == 0);
    assert(crate::ifd::nonstrip_prefix_size(vs, 12) == 0);
    assert(crate::ifd::nonstrip_prefix_size(vs, 13) == 0);
    assert(crate::ifd::nonstrip_prefix_size(vs, 14) == 0);
    assert(crate::ifd::nonstrip_prefix_size(vs, 15) == 72);
    assert(crate::ifd::nonstrip_prefix_size(vs, 16) == 96);
    assert(crate::ifd::nonstrip_prefix_size(vs, 17) == 112);
    assert(crate::ifd::strip_prefix_size(vs, 0) == 0);
    assert(crate::ifd::strip_prefix_size(vs, 1) == 0);
    assert(crate::ifd::strip_prefix_size(vs, 2) == 0);
    assert(crate::ifd::strip_prefix_size(vs, 3) == 0);
    assert(crate::ifd::strip_prefix_size(vs, 4) == 0);
    assert(crate::ifd::strip_prefix_size(vs, 5) == 0);
    assert(crate::ifd::strip_prefix_size(vs, 6) == 0);
    assert(crate::ifd::strip_prefix_size(vs, 7) == 2 * samples.len());
    assert(crate::ifd::strip_prefix_size(vs, 8) == 2 * samples.len());
    assert(crate::ifd::strip_prefix_size(vs, 9) == 2 * samples.len());
    assert(crate::ifd::strip_prefix_size(vs, 10) == 2 * samples.len());
    assert(crate::ifd::strip_prefix_size(vs, 11) == 2 * samples.len());
    assert(crate::ifd::strip_prefix_size(vs, 12) == 2 * samples.len());
    assert(crate::ifd::strip_prefix_size(vs, 13) == 2 * samples.len());
    assert(crate::ifd::strip_prefix_size(vs, 14) == 2 * samples.len());
    assert(crate::ifd::strip_prefix_size(vs, 15) == 2 * samples.len());
    assert(crate::ifd::strip_prefix_size(vs, 16) == 2 * samples.len());
    assert(crate::ifd::strip_prefix_size(vs, 17) == 2 * samples.len());
    assert(forall|k: int| 0 <= k < 16 ==> (#[trigger] vs[k].tag) < vs[k + 1].tag);
    crate::ifd::lemma_ascending_from_adjacent(vs);
    assert forall|k: int| 0 <= k < 17 implies (#[trigger] vs[k]).wf() by {
        assert(vs[6].wf());
        assert(vs[12].wf());
    }
}

/// The channel-offset table always has one entry per block position.
pub proof fn lemma_pattern_offsets_len(p: BayerPattern)
    ensures
        p.spec_offsets().len() == 4,
{
    match p {
        BayerPattern::RGGB => {},
        BayerPattern::BGGR => {},
        BayerPattern::GRBG => {},
        BayerPattern::GBRG => {},
    }
}

/// The size of the encoded file is exactly the 8-byte header, the
/// 210-byte entry table, the 112 bytes of out-of-line rational blocks,
/// and two strip bytes per sample; and the recorded StripByteCounts
/// value is the strip size `width * height * 2`.
pub proof fn lemma_dng_file_size(width: u32, height: u32, pattern: BayerPattern, samples: Seq<u16>)
    requires
        samples.len() == width * height,
        330 + 2 * (width * height) <= u32::MAX,
    ensures
        dng_file(width, height, pattern, samples).len() == 8 + crate::ifd::table_size(17) + 112 + 2
            * (width * height),
        crate::bytes::read_le32(dng_file(width, height, pattern, samples), 138) == width * height
            * 2,
{
    let vs = dng_entry_views(width, height, pattern, samples);
    let f = dng_file(width, height, pattern, samples);
    lemma_dng_views_wf(width, height, pattern, samples);
    crate::ifd::lemma_ifd_file_len(vs);
    let sbc: u32 = (width * height * 2) as u32;
    crate::ifd::lemma_bytes_of_longs_single(sbc);
    assert(!vs[10].external());
    crate::ifd::lemma_record_inline_byte(vs, 10, 0);
    crate::ifd::lemma_record_inline_byte(vs, 10, 1);
    crate::ifd::lemma_record_inline_byte(vs, 10, 2);
    crate::ifd::lemma_record_inline_byte(vs, 10, 3);
    crate::bytes::lemma_read_le32_bytes(sbc);
}

/// Following the encoder's own output back through the TIFF rules
/// recovers what was encoded: the header declares a little-endian file
/// with its directory at offset 8; the directory records the original
/// width, height, BitsPerSample 16, PhotometricInterpretation 32803 and
/// the pattern's channel map; and every offset-valued record (the strip
/// and the three rational blocks) points exactly at the start of its
/// block, whose bytes are the encoded values.
pub proof fn lemma_dng_round_trip(width: u32, height: u32, pattern: BayerPattern, samples: Seq<u16>)
    requires
        samples.len() == width * height,
        330 + 2 * (width * height) <= u32::MAX,
    ensures
        ({
            let f = dng_file(width, height, pattern, samples);
            &&& f[0] == 73 && f[1] == 73
            &&& crate::bytes::read_le16(f, 2) == 42
            &&& crate::bytes::read_le32(f, 4) == 8
            &&& crate::bytes::read_le16(f, 8) == 17
            &&& crate::bytes::read_le16(f, 22) == 256 && crate::bytes::read_le32(f, 30) == width
            &&& crate::bytes::read_le16(f, 34) == 257 && crate::bytes::read_le32(f, 42) == height
            &&& crate::bytes::read_le16(f, 46) == 258 && crate::bytes::read_le16(f, 54) == 16
            &&& crate::bytes::read_le16(f, 70) == 262 && crate::bytes::read_le16(f, 78) == 32803
            &&& crate::bytes::read_le16(f, 82) == 273 && crate::bytes::read_le32(f, 90) == 330
            &&& crate::bytes::read_le16(f, 154) == 33422
            &&& (forall|k: int| 0 <= k < 4 ==> f[162 + k] == pattern.spec_offsets()[k])
            &&& crate::bytes::read_le32(f, 214) == 0
            &&& (forall|k: int|
                0 <= k < samples.len() ==> crate::bytes::read_le16(f, 330 + 2 * k) == samples[k])
            &&& crate::bytes::read_le32(f, 186) == 218 && f.subrange(218, 290)
                == bytes_of_srationals(dng_color_matrix())
            &&& crate::bytes::read_le32(f, 198) == 290 && f.subrange(290, 314)
                == bytes_of_srationals(dng_as_shot_neutral())
            &&& crate::bytes::read_le32(f, 210) == 314 && f.subrange(314, 330)
                == bytes_of_srationals(dng_as_shot_white_xy())
        }),
{
    let vs = dng_entry_views(width, height, pattern, samples);
    let f = dng_file(width, height, pattern, samples);
    lemma_dng_views_wf(width, height, pattern, samples);
    crate::ifd::lemma_ifd_file_len(vs);
    crate::ifd::lemma_records_prefix_len(vs, 17);
    crate::ifd::lemma_nonstrip_blocks_len(vs, 17);
    crate::ifd::lemma_strip_blocks_len(vs, 17);
    crate::ifd::lemma_bytes_of_shorts_len(samples);
    crate::ifd::lemma_bytes_of_srationals_len(dng_color_matrix());
    crate::ifd::lemma_bytes_of_srationals_len(dng_as_shot_neutral());
    crate::ifd::lemma_bytes_of_srationals_len(dng_as_shot_white_xy());
    lemma_pattern_offsets_len(pattern);
    // the header and the entry count precede the records
    assert(f[0] == 73 && f[1] == 73);
    assert(f[2] == 42 && f[3] == 0);
    assert(f[4] == 8 && f[5] == 0 && f[6] == 0 && f[7] == 0);
    assert(f[8] == 17 && f[9] == 0);
    // fixed records: tag and inline value reads
    crate::ifd::lemma_record_field_reads(vs, 1);
    crate::ifd::lemma_bytes_of_longs_single(width);
    crate::ifd::lemma_record_inline_byte(vs, 1, 0);
    crate::ifd::lemma_record_inline_byte(vs, 1, 1);
    crate::ifd::lemma_record_inline_byte(vs, 1, 2);
    crate::ifd::lemma_record_inline_byte(vs, 1, 3);
    crate::bytes::lemma_read_le32_bytes(width);
    crate::ifd::lemma_record_field_reads(vs, 2);
    crate::ifd::lemma_bytes_of_longs_single(height);
    crate::ifd::lemma_record_inline_byte(vs, 2, 0);
    crate::ifd::lemma_record_inline_byte(vs, 2, 1);
    crate::ifd::lemma_record_inline_byte(vs, 2, 2);
    crate::ifd::lemma_record_inline_byte(vs, 2, 3);
    crate::bytes::lemma_read_le32_bytes(height);
    crate::ifd::lemma_record_field_reads(vs, 3);
    crate::ifd::lemma_bytes_of_shorts_single(16);
    crate::ifd::lemma_record_inline_byte(vs, 3, 0);
    crate::ifd::lemma_record_inline_byte(vs, 3, 1);
    crate::bytes::lemma_read_le16_bytes(16);
    crate::ifd::lemma_record_field_reads(vs, 5);
    crate::ifd::lemma_bytes_of_shorts_single(32803);
    crate::ifd::lemma_record_inline_byte(vs, 5, 0);
    crate::ifd::lemma_record_inline_byte(vs, 5, 1);
    crate::bytes::lemma_read_le16_bytes(32803);
    // the strip record and the strip itself
    crate::ifd::lemma_record_field_reads(vs, 6);
    assert(crate::bytes::read_le32(f, 90) == 330);
    assert forall|k: int| 0 <= k < samples.len() implies crate::bytes::read_le16(f, 330 + 2 * k)
        == samples[k] by {
        crate::ifd::lemma_file_block_byte(vs, 6, 2 * k);
        crate::ifd::lemma_file_block_byte(vs, 6, 2 * k + 1);
        crate::ifd::lemma_bytes_of_shorts_index(samples, k);
        vstd::arithmetic::div_mod::lemma_fundamental_div_mod(samples[k] as int, 256);
    }
    // the channel map, stored inline
    crate::ifd::lemma_record_field_reads(vs, 12);
    assert forall|k: int| 0 <= k < 4 implies f[162 + k] == pattern.spec_offsets()[k] by {
        crate::ifd::lemma_record_inline_byte(vs, 12, k);
    }
    // the terminal next-directory offset
    assert(f[214] == 0 && f[215] == 0 && f[216] == 0 && f[217] == 0);
    // the rational blocks, reached through their recorded offsets
    crate::ifd::lemma_record_field_reads(vs, 14);
    assert forall|k: int| 0 <= k < 72 implies f[218 + k] == bytes_of_srationals(
        dng_color_matrix(),
    )[k] by {
        crate::ifd::lemma_file_block_byte(vs, 14, k);
    }
    assert(f.subrange(218, 290) =~= bytes_of_srationals(dng_color_matrix()));
    crate::ifd::lemma_record_field_reads(vs, 15);
    assert forall|k: int| 0 <= k < 24 implies f[290 + k] == bytes_of_srationals(
        dng_as_shot_neutral(),
    )[k] by {
        crate::ifd::lemma_file_block_byte(vs, 15, k);
    }
    assert(f.subrange(290, 314) =~= bytes_of_srationals(dng_as_shot_neutral()));
    crate::ifd::lemma_record_field_reads(vs, 16);
    assert forall|k: int| 0 <= k < 16 implies f[314 + k] == bytes_of_srationals(
        dng_as_shot_white_xy(),
    )[k] by {
        crate::ifd::lemma_file_block_byte(vs, 16, k);
    }
    assert(f.subrange(314, 330) =~= bytes_of_srationals(dng_as_shot_white_xy()));
}

} // verus!
