//! The TIFF image file directory and its byte-exact serialization.
//!
//! An IFD is an ordered collection of typed tag/value pairs. The file
//! layout is: an 8-byte header, the entry table (12 bytes per entry,
//! tags strictly ascending), a terminal next-directory offset of zero,
//! then one data block for every entry whose value does not fit in the
//! 4 inline bytes of its record. Blocks of ordinary out-of-line values
//! come first, in entry order; pixel strips come last, so the strip
//! offset is the cumulative size of everything before it.

use vstd::prelude::*;

verus! {

use crate::bytes::{
    le16_bytes, le32_bytes, i32_bits, push_u16_le, push_u32_le, read_le16, read_le32,
    u32_bits_of_i32,
};

/// The little-endian concatenation of 16-bit values.
pub open spec fn bytes_of_shorts(s: Seq<u16>) -> Seq<u8>
    decreases s.len(),
{
    if s.len() == 0 {
        Seq::empty()
    } else {
        bytes_of_shorts(s.drop_last()) + le16_bytes(s.last())
    }
}

/// The little-endian concatenation of 32-bit values.
pub open spec fn bytes_of_longs(s: Seq<u32>) -> Seq<u8>
    decreases s.len(),
{
    if s.len() == 0 {
        Seq::empty()
    } else {
        bytes_of_longs(s.drop_last()) + le32_bytes(s.last())
    }
}

/// The little-endian concatenation of signed rationals, each a
/// numerator and a denominator written as 32-bit two's complement.
pub open spec fn bytes_of_srationals(s: Seq<(i32, i32)>) -> Seq<u8>
    decreases s.len(),
{
    if s.len() == 0 {
        Seq::empty()
    } else {
        bytes_of_srationals(s.drop_last()) + le32_bytes(i32_bits(s.last().0)) + le32_bytes(
            i32_bits(s.last().1),
        )
    }
}

pub proof fn lemma_bytes_of_shorts_len(s: Seq<u16>)
    ensures
        bytes_of_shorts(s).len() == 2 * s.len(),
    decreases s.len(),
{
    if s.len() > 0 {
        lemma_bytes_of_shorts_len(s.drop_last());
    }
}

pub proof fn lemma_bytes_of_longs_len(s: Seq<u32>)
    ensures
        bytes_of_longs(s).len() == 4 * s.len(),
    decreases s.len(),
{
    if s.len() > 0 {
        lemma_bytes_of_longs_len(s.drop_last());
    }
}

pub proof fn lemma_bytes_of_srationals_len(s: Seq<(i32, i32)>)
    ensures
        bytes_of_srationals(s).len() == 8 * s.len(),
    decreases s.len(),
{
    if s.len() > 0 {
        lemma_bytes_of_srationals_len(s.drop_last());
    }
}

/// The two bytes of sample `k` sit at positions `2k` and `2k + 1`.
pub proof fn lemma_bytes_of_shorts_index(s: Seq<u16>, k: int)
    requires
        0 <= k < s.len(),
    ensures
        bytes_of_shorts(s)[2 * k] == s[k] % 256,
        bytes_of_shorts(s)[2 * k + 1] == s[k] / 256,
    decreases s.len(),
{
    lemma_bytes_of_shorts_len(s.drop_last());
    if k == s.len() - 1 {
        assert(s.last() == s[k]);
    } else {
        lemma_bytes_of_shorts_index(s.drop_last(), k);
        assert(s.drop_last()[k] == s[k]);
    }
}

/// One value of an IFD entry.
pub enum IfdValue {
    /// 8-bit values (TIFF type BYTE).
    Bytes(Vec<u8>),
    /// 16-bit values (TIFF type SHORT).
    Shorts(Vec<u16>),
    /// 32-bit values (TIFF type LONG).
    Longs(Vec<u32>),
    /// Signed rationals (TIFF type SRATIONAL).
    SRationals(Vec<(i32, i32)>),
    /// A raw pixel strip: referenced by a single LONG offset and always
    /// placed after every other data block.
    Strip(Vec<u8>),
}

/// One tag/value pair of an IFD.
pub struct IfdEntry {
    pub tag: u16,
    pub value: IfdValue,
}

/// The abstract content of an entry: what the serialized form is a
/// function of.
pub struct EntryView {
    pub tag: u16,
    pub type_code: u16,
    pub count: nat,
    pub data: Seq<u8>,
    pub strip: bool,
}

impl IfdValue {
    /// The TIFF type code stored in the entry record.
    pub open spec fn spec_type_code(self) -> u16 {
        match self {
            IfdValue::Bytes(_) => 1,
            IfdValue::Shorts(_) => 3,
            IfdValue::Longs(_) => 4,
            IfdValue::SRationals(_) => 10,
            IfdValue::Strip(_) => 4,
        }
    }

    /// The value count stored in the entry record. A strip is referenced
    /// by one offset, so its count is 1.
    pub open spec fn spec_count(self) -> nat {
        match self {
            IfdValue::Bytes(b) => b@.len(),
            IfdValue::Shorts(s) => s@.len(),
            IfdValue::Longs(l) => l@.len(),
            IfdValue::SRationals(r) => r@.len(),
            IfdValue::Strip(_) => 1,
        }
    }

    /// The encoded value bytes.
    pub open spec fn spec_data(self) -> Seq<u8> {
        match self {
            IfdValue::Bytes(b) => b@,
            IfdValue::Shorts(s) => bytes_of_shorts(s@),
            IfdValue::Longs(l) => bytes_of_longs(l@),
            IfdValue::SRationals(r) => bytes_of_srationals(r@),
            IfdValue::Strip(b) => b@,
        }
    }

    pub open spec fn spec_is_strip(self) -> bool {
        self is Strip
    }
}

impl View for IfdEntry {
    type V = EntryView;

    open spec fn view(&self) -> EntryView {
        EntryView {
            tag: self.tag,
            type_code: self.value.spec_type_code(),
            count: self.value.spec_count(),
            data: self.value.spec_data(),
            strip: self.value.spec_is_strip(),
        }
    }
}

/// The abstract contents of a whole entry list.
pub open spec fn views_of(entries: Seq<IfdEntry>) -> Seq<EntryView> {
    entries.map_values(|e: IfdEntry| e@)
}

impl EntryView {
    /// The size in bytes of one value of this entry's type.
    pub open spec fn type_size(self) -> nat {
        if self.type_code == 1 {
            1
        } else if self.type_code == 3 {
            2
        } else if self.type_code == 4 {
            4
        } else {
            8
        }
    }

    /// Whether the value lives in a data block after the table rather
    /// than in the record's 4 inline bytes.
    pub open spec fn external(self) -> bool {
        self.strip || self.data.len() > 4
    }

    /// The record fields fit their fixed-width slots and agree with the
    /// encoded data.
    pub open spec fn wf(self) -> bool {
        &&& self.count <= u32::MAX
        &&& self.data.len() <= u32::MAX
        &&& (self.type_code == 1 || self.type_code == 3 || self.type_code == 4 || self.type_code
            == 10)
        &&& if self.strip {
            self.type_code == 4 && self.count == 1
        } else {
            self.data.len() == self.count * self.type_size()
        }
    }
}

/// The byte size of the entry table for `n` entries: the entry count,
/// the records, and the terminal next-directory offset.
pub open spec fn table_size(n: int) -> int {
    2 + 12 * n + 4
}

/// The block-area bytes entry `v` contributes before the strips.
pub open spec fn nonstrip_block_size(v: EntryView) -> int {
    if v.external() && !v.strip {
        v.data.len() as int
    } else {
        0
    }
}

/// The strip-area bytes entry `v` contributes.
pub open spec fn strip_block_size(v: EntryView) -> int {
    if v.strip {
        v.data.len() as int
    } else {
        0
    }
}

/// The block-area bytes contributed by entries before `i`.
pub open spec fn nonstrip_prefix_size(vs: Seq<EntryView>, i: int) -> int
    decreases i,
{
    if i <= 0 {
        0
    } else {
        nonstrip_prefix_size(vs, i - 1) + nonstrip_block_size(vs[i - 1])
    }
}

/// The strip-area bytes contributed by entries before `i`.
pub open spec fn strip_prefix_size(vs: Seq<EntryView>, i: int) -> int
    decreases i,
{
    if i <= 0 {
        0
    } else {
        strip_prefix_size(vs, i - 1) + strip_block_size(vs[i - 1])
    }
}

/// The size in bytes of the whole serialized file.
pub open spec fn total_size(vs: Seq<EntryView>) -> int {
    8 + table_size(vs.len() as int) + nonstrip_prefix_size(vs, vs.len() as int)
        + strip_prefix_size(vs, vs.len() as int)
}

/// The absolute file offset of the data block of external entry `i`:
/// ordinary blocks follow the table in entry order, strips follow all
/// ordinary blocks.
pub open spec fn entry_data_offset(vs: Seq<EntryView>, i: int) -> int {
    if vs[i].strip {
        8 + table_size(vs.len() as int) + nonstrip_prefix_size(vs, vs.len() as int)
            + strip_prefix_size(vs, i)
    } else {
        8 + table_size(vs.len() as int) + nonstrip_prefix_size(vs, i)
    }
}

/// `n` zero bytes.
pub open spec fn zero_pad(n: nat) -> Seq<u8> {
    Seq::new(n, |i: int| 0u8)
}

/// The 4 value bytes of record `i`: the value itself, zero-padded, or
/// the offset of its data block.
pub open spec fn entry_field_bytes(vs: Seq<EntryView>, i: int) -> Seq<u8> {
    let v = vs[i];
    if v.external() {
        le32_bytes(entry_data_offset(vs, i) as u32)
    } else {
        v.data + zero_pad((4 - v.data.len()) as nat)
    }
}

/// The 12-byte record of entry `i`: tag, type, count, value field.
pub open spec fn entry_record_bytes(vs: Seq<EntryView>, i: int) -> Seq<u8> {
    le16_bytes(vs[i].tag) + le16_bytes(vs[i].type_code) + le32_bytes(vs[i].count as u32)
        + entry_field_bytes(vs, i)
}

/// The concatenated records of entries before `i`.
pub open spec fn records_prefix_bytes(vs: Seq<EntryView>, i: int) -> Seq<u8>
    decreases i,
{
    if i <= 0 {
        Seq::empty()
    } else {
        records_prefix_bytes(vs, i - 1) + entry_record_bytes(vs, i - 1)
    }
}

/// The concatenated ordinary data blocks of entries before `i`.
pub open spec fn nonstrip_blocks_bytes(vs: Seq<EntryView>, i: int) -> Seq<u8>
    decreases i,
{
    if i <= 0 {
        Seq::empty()
    } else {
        nonstrip_blocks_bytes(vs, i - 1) + (if vs[i - 1].external() && !vs[i - 1].strip {
            vs[i - 1].data
        } else {
            Seq::empty()
        })
    }
}

/// The concatenated strip blocks of entries before `i`.
pub open spec fn strip_blocks_bytes(vs: Seq<EntryView>, i: int) -> Seq<u8>
    decreases i,
{
    if i <= 0 {
        Seq::empty()
    } else {
        strip_blocks_bytes(vs, i - 1) + (if vs[i - 1].strip {
            vs[i - 1].data
        } else {
            Seq::empty()
        })
    }
}

/// The 8-byte file header: little-endian marker, magic 42, and the
/// offset of the directory, which starts right after the header.
pub open spec fn header_bytes() -> Seq<u8> {
    seq![73u8, 73u8, 42u8, 0u8, 8u8, 0u8, 0u8, 0u8]
}

/// The whole serialized file.
pub open spec fn ifd_file_bytes(vs: Seq<EntryView>) -> Seq<u8> {
    header_bytes() + le16_bytes(vs.len() as u16) + records_prefix_bytes(vs, vs.len() as int)
        + le32_bytes(0u32) + nonstrip_blocks_bytes(vs, vs.len() as int) + strip_blocks_bytes(
        vs,
        vs.len() as int,
    )
}

/// A serializable directory: few enough entries for the 16-bit count,
/// tags strictly ascending, every record well formed, and all offsets
/// representable in 32 bits.
pub open spec fn wf_entries(vs: Seq<EntryView>) -> bool {
    &&& vs.len() <= 0xFFFF
    &&& (forall|i: int, j: int|
        0 <= i < j < vs.len() ==> #[trigger] vs[i].tag < #[trigger] vs[j].tag)
    &&& (forall|i: int| 0 <= i < vs.len() ==> (#[trigger] vs[i]).wf())
    &&& total_size(vs) <= u32::MAX
}

/// Every record is exactly 12 bytes.
pub proof fn lemma_entry_record_len(vs: Seq<EntryView>, i: int)
    ensures
        entry_record_bytes(vs, i).len() == 12,
{
}

/// The records of the first `i` entries occupy `12 * i` bytes.
pub proof fn lemma_records_prefix_len(vs: Seq<EntryView>, i: int)
    requires
        0 <= i,
    ensures
        records_prefix_bytes(vs, i).len() == 12 * i,
    decreases i,
{
    if i > 0 {
        lemma_records_prefix_len(vs, i - 1);
        lemma_entry_record_len(vs, i - 1);
    }
}

/// The concatenated ordinary blocks are as long as the sizes say.
pub proof fn lemma_nonstrip_blocks_len(vs: Seq<EntryView>, i: int)
    requires
        0 <= i,
    ensures
        nonstrip_blocks_bytes(vs, i).len() == nonstrip_prefix_size(vs, i),
    decreases i,
{
    if i > 0 {
        lemma_nonstrip_blocks_len(vs, i - 1);
    }
}

/// The concatenated strip blocks are as long as the sizes say.
pub proof fn lemma_strip_blocks_len(vs: Seq<EntryView>, i: int)
    requires
        0 <= i,
    ensures
        strip_blocks_bytes(vs, i).len() == strip_prefix_size(vs, i),
    decreases i,
{
    if i > 0 {
        lemma_strip_blocks_len(vs, i - 1);
    }
}

/// Block sizes accumulate monotonically and never go negative.
pub proof fn lemma_prefix_sizes_bounds(vs: Seq<EntryView>, i: int, j: int)
    requires
        0 <= i <= j,
    ensures
        0 <= nonstrip_prefix_size(vs, i) <= nonstrip_prefix_size(vs, j),
        0 <= strip_prefix_size(vs, i) <= strip_prefix_size(vs, j),
    decreases j,
{
    if j > 0 {
        if i == j {
            lemma_prefix_sizes_bounds(vs, i - 1, j - 1);
        } else {
            lemma_prefix_sizes_bounds(vs, i, j - 1);
        }
    }
}

/// The serialized file is exactly `total_size` bytes long.
pub proof fn lemma_ifd_file_len(vs: Seq<EntryView>)
    ensures
        ifd_file_bytes(vs).len() == total_size(vs),
{
    lemma_records_prefix_len(vs, vs.len() as int);
    lemma_nonstrip_blocks_len(vs, vs.len() as int);
    lemma_strip_blocks_len(vs, vs.len() as int);
}

/// A single 16-bit value encodes as its two little-endian bytes.
pub proof fn lemma_bytes_of_shorts_single(v: u16)
    ensures
        bytes_of_shorts(seq![v]) == le16_bytes(v),
{
    let s = seq![v];
    assert(s.drop_last() =~= Seq::<u16>::empty());
    assert(bytes_of_shorts(Seq::<u16>::empty()) == Seq::<u8>::empty());
    assert(bytes_of_shorts(s) =~= le16_bytes(v));
}

/// A single 32-bit value encodes as its four little-endian bytes.
pub proof fn lemma_bytes_of_longs_single(v: u32)
    ensures
        bytes_of_longs(seq![v]) == le32_bytes(v),
{
    let s = seq![v];
    assert(s.drop_last() =~= Seq::<u32>::empty());
    assert(bytes_of_longs(Seq::<u32>::empty()) == Seq::<u8>::empty());
    assert(bytes_of_longs(s) =~= le32_bytes(v));
}

/// Strictly ascending neighbours make strictly ascending pairs.
pub proof fn lemma_ascending_from_adjacent(vs: Seq<EntryView>)
    requires
        forall|k: int| 0 <= k < vs.len() - 1 ==> (#[trigger] vs[k].tag) < vs[k + 1].tag,
    ensures
        forall|i: int, j: int|
            0 <= i < j < vs.len() ==> #[trigger] vs[i].tag < #[trigger] vs[j].tag,
{
    assert forall|i: int, j: int| 0 <= i < j < vs.len() implies #[trigger] vs[i].tag
        < #[trigger] vs[j].tag by {
        lemma_tag_chain(vs, i, j);
    }
}

proof fn lemma_tag_chain(vs: Seq<EntryView>, i: int, j: int)
    requires
        forall|k: int| 0 <= k < vs.len() - 1 ==> (#[trigger] vs[k].tag) < vs[k + 1].tag,
        0 <= i < j < vs.len(),
    ensures
        vs[i].tag < vs[j].tag,
    decreases j - i,
{
    if i + 1 < j {
        lemma_tag_chain(vs, i, j - 1);
        assert(vs[j - 1].tag < vs[j].tag);
    }
}

/// Record `i` occupies bytes `12 i` to `12 i + 12` of the record area.
pub proof fn lemma_records_index(vs: Seq<EntryView>, n: int, i: int, k: int)
    requires
        0 <= i < n,
        0 <= k < 12,
    ensures
        records_prefix_bytes(vs, n)[12 * i + k] == entry_record_bytes(vs, i)[k],
    decreases n,
{
    lemma_records_prefix_len(vs, n - 1);
    lemma_entry_record_len(vs, n - 1);
    if i < n - 1 {
        lemma_records_index(vs, n - 1, i, k);
    }
}

/// Record `i` starts at file offset `10 + 12 i`.
pub proof fn lemma_file_record_byte(vs: Seq<EntryView>, i: int, k: int)
    requires
        0 <= i < vs.len(),
        0 <= k < 12,
    ensures
        ifd_file_bytes(vs)[10 + 12 * i + k] == entry_record_bytes(vs, i)[k],
{
    lemma_records_prefix_len(vs, vs.len() as int);
    lemma_records_index(vs, vs.len() as int, i, k);
}

/// Byte `k` of the data of ordinary external entry `i` sits at position
/// `nonstrip_prefix_size(vs, i) + k` of the ordinary block area.
pub proof fn lemma_nonstrip_blocks_index(vs: Seq<EntryView>, n: int, i: int, k: int)
    requires
        0 <= i < n,
        vs[i].external() && !vs[i].strip,
        0 <= k < vs[i].data.len(),
    ensures
        nonstrip_blocks_bytes(vs, n)[nonstrip_prefix_size(vs, i) + k] == vs[i].data[k],
    decreases n,
{
    lemma_nonstrip_blocks_len(vs, n - 1);
    lemma_prefix_sizes_bounds(vs, 0, i);
    if i < n - 1 {
        lemma_nonstrip_blocks_index(vs, n - 1, i, k);
        lemma_prefix_sizes_bounds(vs, i + 1, n - 1);
    }
}

/// Byte `k` of the data of strip entry `i` sits at position
/// `strip_prefix_size(vs, i) + k` of the strip area.
pub proof fn lemma_strip_blocks_index(vs: Seq<EntryView>, n: int, i: int, k: int)
    requires
        0 <= i < n,
        vs[i].strip,
        0 <= k < vs[i].data.len(),
    ensures
        strip_blocks_bytes(vs, n)[strip_prefix_size(vs, i) + k] == vs[i].data[k],
    decreases n,
{
    lemma_strip_blocks_len(vs, n - 1);
    lemma_prefix_sizes_bounds(vs, 0, i);
    if i < n - 1 {
        lemma_strip_blocks_index(vs, n - 1, i, k);
        lemma_prefix_sizes_bounds(vs, i + 1, n - 1);
    }
}

/// Following the offset recorded for external entry `i` from the start
/// of the file lands exactly on its data: byte `k` of the block is byte
/// `k` of the entry's data.
pub proof fn lemma_file_block_byte(vs: Seq<EntryView>, i: int, k: int)
    requires
        0 <= i < vs.len(),
        vs[i].external(),
        0 <= k < vs[i].data.len(),
    ensures
        ifd_file_bytes(vs)[entry_data_offset(vs, i) + k] == vs[i].data[k],
{
    let n = vs.len() as int;
    lemma_records_prefix_len(vs, n);
    lemma_nonstrip_blocks_len(vs, n);
    lemma_strip_blocks_len(vs, n);
    lemma_prefix_sizes_bounds(vs, 0, i);
    lemma_prefix_sizes_bounds(vs, i + 1, n);
    if vs[i].strip {
        lemma_strip_blocks_index(vs, n, i, k);
    } else {
        lemma_nonstrip_blocks_index(vs, n, i, k);
    }
}

/// The reads of the fixed fields of record `i`: tag, type, count, and,
/// for an external entry, the block offset.
pub proof fn lemma_record_field_reads(vs: Seq<EntryView>, i: int)
    requires
        0 <= i < vs.len(),
        vs[i].count <= u32::MAX,
    ensures
        read_le16(ifd_file_bytes(vs), 10 + 12 * i) == vs[i].tag,
        read_le16(ifd_file_bytes(vs), 10 + 12 * i + 2) == vs[i].type_code,
        read_le32(ifd_file_bytes(vs), 10 + 12 * i + 4) == vs[i].count,
        vs[i].external() && 0 <= entry_data_offset(vs, i) <= u32::MAX ==> read_le32(
            ifd_file_bytes(vs),
            10 + 12 * i + 8,
        ) == entry_data_offset(vs, i),
{
    lemma_file_record_byte(vs, i, 0);
    lemma_file_record_byte(vs, i, 1);
    lemma_file_record_byte(vs, i, 2);
    lemma_file_record_byte(vs, i, 3);
    lemma_file_record_byte(vs, i, 4);
    lemma_file_record_byte(vs, i, 5);
    lemma_file_record_byte(vs, i, 6);
    lemma_file_record_byte(vs, i, 7);
    lemma_file_record_byte(vs, i, 8);
    lemma_file_record_byte(vs, i, 9);
    lemma_file_record_byte(vs, i, 10);
    lemma_file_record_byte(vs, i, 11);
    crate::bytes::lemma_read_le16_bytes(vs[i].tag);
    crate::bytes::lemma_read_le16_bytes(vs[i].type_code);
    crate::bytes::lemma_read_le32_bytes(vs[i].count as u32);
    if vs[i].external() && 0 <= entry_data_offset(vs, i) <= u32::MAX {
        crate::bytes::lemma_read_le32_bytes(entry_data_offset(vs, i) as u32);
    }
}

/// The inline value bytes of a non-external record `i`: the data, then
/// zero padding, at file offset `18 + 12 i`.
pub proof fn lemma_record_inline_byte(vs: Seq<EntryView>, i: int, k: int)
    requires
        0 <= i < vs.len(),
        !vs[i].external(),
        0 <= k < 4,
    ensures
        ifd_file_bytes(vs)[18 + 12 * i + k] == if k < vs[i].data.len() {
            vs[i].data[k]
        } else {
            0u8
        },
{
    lemma_file_record_byte(vs, i, 8 + k);
}

impl IfdValue {
    /// The TIFF type code stored in the entry record.
    pub fn type_code(&self) -> (r: u16)
        ensures
            r == self.spec_type_code(),
    {
        match self {
            IfdValue::Bytes(_) => 1,
            IfdValue::Shorts(_) => 3,
            IfdValue::Longs(_) => 4,
            IfdValue::SRationals(_) => 10,
            IfdValue::Strip(_) => 4,
        }
    }

    /// The value count stored in the entry record.
    pub fn count64(&self) -> (r: u64)
        ensures
            r == self.spec_count(),
    {
        match self {
            IfdValue::Bytes(b) => b.len() as u64,
            IfdValue::Shorts(s) => s.len() as u64,
            IfdValue::Longs(l) => l.len() as u64,
            IfdValue::SRationals(r) => r.len() as u64,
            IfdValue::Strip(_) => 1,
        }
    }

    /// The length in bytes of the encoded value.
    pub fn data_size128(&self) -> (r: u128)
        ensures
            r == self.spec_data().len(),
    {
        match self {
            IfdValue::Bytes(b) => b.len() as u128,
            IfdValue::Shorts(s) => {
                proof {
                    lemma_bytes_of_shorts_len(s@);
                }
                (s.len() as u128) * 2
            },
            IfdValue::Longs(l) => {
                proof {
                    lemma_bytes_of_longs_len(l@);
                }
                (l.len() as u128) * 4
            },
            IfdValue::SRationals(r) => {
                proof {
                    lemma_bytes_of_srationals_len(r@);
                }
                (r.len() as u128) * 8
            },
            IfdValue::Strip(b) => b.len() as u128,
        }
    }

    /// Whether this value is a pixel strip.
    pub fn is_strip(&self) -> (r: bool)
        ensures
            r == self.spec_is_strip(),
    {
        match self {
            IfdValue::Strip(_) => true,
            _ => false,
        }
    }
}

/// Appends the encoded bytes of `v`.
fn push_value_data(out: &mut Vec<u8>, v: &IfdValue)
    ensures
        final(out)@ == old(out)@ + v.spec_data(),
{
    let ghost base = out@;
    match v {
        IfdValue::Bytes(b) => {
            push_raw(out, b);
        },
        IfdValue::Strip(b) => {
            push_raw(out, b);
        },
        IfdValue::Shorts(s) => {
            let n = s.len();
            let mut j: usize = 0;
            while j < n
                invariant
                    0 <= j <= n,
                    n == s@.len(),
                    out@ == base + bytes_of_shorts(s@.take(j as int)),
                decreases n - j,
            {
                push_u16_le(out, s[j]);
                proof {
                    let t = s@.take(j + 1int);
                    assert(t.drop_last() =~= s@.take(j as int));
                    assert(t.last() == s@[j as int]);
                }
                j = j + 1;
            }
            proof {
                assert(s@.take(n as int) =~= s@);
            }
        },
        IfdValue::Longs(l) => {
            let n = l.len();
            let mut j: usize = 0;
            while j < n
                invariant
                    0 <= j <= n,
                    n == l@.len(),
                    out@ == base + bytes_of_longs(l@.take(j as int)),
                decreases n - j,
            {
                push_u32_le(out, l[j]);
                proof {
                    let t = l@.take(j + 1int);
                    assert(t.drop_last() =~= l@.take(j as int));
                    assert(t.last() == l@[j as int]);
                }
                j = j + 1;
            }
            proof {
                assert(l@.take(n as int) =~= l@);
            }
        },
        IfdValue::SRationals(r) => {
            let n = r.len();
            let mut j: usize = 0;
            while j < n
                invariant
                    0 <= j <= n,
                    n == r@.len(),
                    out@ == base + bytes_of_srationals(r@.take(j as int)),
                decreases n - j,
            {
                let (num, den) = r[j];
                push_u32_le(out, u32_bits_of_i32(num));
                push_u32_le(out, u32_bits_of_i32(den));
                proof {
                    let t = r@.take(j + 1int);
                    assert(t.drop_last() =~= r@.take(j as int));
                    assert(t.last() == r@[j as int]);
                }
                j = j + 1;
            }
            proof {
                assert(r@.take(n as int) =~= r@);
            }
        },
    }
}

/// A record built from a real value always has a consistent type code,
/// count and data length.
proof fn lemma_entry_consistent(e: IfdEntry)
    ensures
        e@.count <= u32::MAX && e@.data.len() <= u32::MAX ==> e@.wf(),
{
    match e.value {
        IfdValue::Bytes(_) => {},
        IfdValue::Shorts(s) => {
            lemma_bytes_of_shorts_len(s@);
        },
        IfdValue::Longs(l) => {
            lemma_bytes_of_longs_len(l@);
        },
        IfdValue::SRationals(r) => {
            lemma_bytes_of_srationals_len(r@);
        },
        IfdValue::Strip(_) => {},
    }
}

/// Decides whether an entry list can be serialized: entry count, tag
/// order, record consistency and the 32-bit offset limit.
pub fn check_entries(entries: &Vec<IfdEntry>) -> (ok: bool)
    ensures
        ok == wf_entries(views_of(entries@)),
{
    let ghost vs = views_of(entries@);
    let n = entries.len();
    if n > 0xFFFF {
        return false;
    }
    let mut sum: u128 = 0;
    let mut i: usize = 0;
    while i < n
        invariant
            0 <= i <= n,
            n == entries@.len(),
            n <= 0xFFFF,
            vs == views_of(entries@),
            sum == nonstrip_prefix_size(vs, i as int) + strip_prefix_size(vs, i as int),
            sum <= 0xFFFF_FFFF * (i as int),
            forall|a: int, b: int| 0 <= a < b < i ==> #[trigger] vs[a].tag < #[trigger] vs[b].tag,
            forall|k: int| 0 <= k < i ==> (#[trigger] vs[k]).wf(),
        decreases n - i,
    {
        let e = &entries[i];
        proof {
            assert(vs[i as int] == entries@[i as int]@);
        }
        if i > 0 {
            if entries[i - 1].tag >= e.tag {
                proof {
                    assert(vs[i as int - 1] == entries@[i as int - 1]@);
                    assert(!(vs[i as int - 1].tag < vs[i as int].tag));
                }
                return false;
            }
        }
        let cnt = e.value.count64();
        if cnt > 0xFFFF_FFFF {
            proof {
                assert(!vs[i as int].wf());
            }
            return false;
        }
        let ds = e.value.data_size128();
        if ds > 0xFFFF_FFFF {
            proof {
                assert(!vs[i as int].wf());
            }
            return false;
        }
        let strip_flag = e.value.is_strip();
        if strip_flag || ds > 4 {
            sum = sum + ds;
        }
        proof {
            lemma_entry_consistent(entries@[i as int]);
            assert forall|a: int, b: int| 0 <= a < b < i + 1 implies #[trigger] vs[a].tag
                < #[trigger] vs[b].tag by {
                if b == i as int && a < i as int - 1 {
                    assert(vs[a].tag < vs[i as int - 1].tag);
                }
            }
        }
        i = i + 1;
    }
    let table: u128 = 2 + 12 * (n as u128) + 4;
    let total: u128 = 8 + table + sum;
    if total > 0xFFFF_FFFF {
        return false;
    }
    true
}

/// Serializes a well-formed entry list into the byte-exact file form:
/// header, entry table, terminal zero offset, ordinary data blocks in
/// entry order, then the strips.
pub fn serialize_entries(entries: &Vec<IfdEntry>) -> (out: Vec<u8>)
    requires
        wf_entries(views_of(entries@)),
    ensures
        out@ == ifd_file_bytes(views_of(entries@)),
{
    let ghost vs = views_of(entries@);
    let n = entries.len();
    proof {
        assert(vs.len() == n);
    }
    let table_sz: u32 = 2 + 12 * (n as u32) + 4;
    let mut nonstrip_total: u32 = 0;
    let mut i: usize = 0;
    while i < n
        invariant
            0 <= i <= n,
            n == entries@.len(),
            n <= 0xFFFF,
            vs == views_of(entries@),
            wf_entries(vs),
            table_sz == table_size(n as int),
            nonstrip_total == nonstrip_prefix_size(vs, i as int),
        decreases n - i,
    {
        let e = &entries[i];
        proof {
            assert(vs[i as int] == entries@[i as int]@);
            assert(vs[i as int].wf());
        }
        let ds = e.value.data_size128();
        let strip_flag = e.value.is_strip();
        if !strip_flag && ds > 4 {
            proof {
                lemma_prefix_sizes_bounds(vs, i as int + 1, n as int);
                lemma_prefix_sizes_bounds(vs, 0, i as int);
                lemma_prefix_sizes_bounds(vs, 0, n as int);
            }
            nonstrip_total = nonstrip_total + (ds as u32);
        }
        i = i + 1;
    }
    let mut out: Vec<u8> = Vec::new();
    out.push(73);
    out.push(73);
    out.push(42);
    out.push(0);
    push_u32_le(&mut out, 8);
    proof {
        assert(out@ =~= header_bytes());
    }
    push_u16_le(&mut out, n as u16);
    let ghost pre_records = header_bytes() + le16_bytes(n as u16);
    proof {
        assert(out@ =~= pre_records + records_prefix_bytes(vs, 0));
    }
    let mut ns_run: u32 = 0;
    let mut sp_run: u32 = 0;
    let mut i: usize = 0;
    while i < n
        invariant
            0 <= i <= n,
            n == entries@.len(),
            n <= 0xFFFF,
            vs == views_of(entries@),
            wf_entries(vs),
            table_sz == table_size(n as int),
            nonstrip_total == nonstrip_prefix_size(vs, n as int),
            ns_run == nonstrip_prefix_size(vs, i as int),
            sp_run == strip_prefix_size(vs, i as int),
            pre_records == header_bytes() + le16_bytes(n as u16),
            out@ == pre_records + records_prefix_bytes(vs, i as int),
        decreases n - i,
    {
        let e = &entries[i];
        proof {
            assert(vs[i as int] == entries@[i as int]@);
            assert(vs[i as int].wf());
            lemma_prefix_sizes_bounds(vs, i as int, n as int);
            lemma_prefix_sizes_bounds(vs, 0, i as int);
        }
        push_u16_le(&mut out, e.tag);
        push_u16_le(&mut out, e.value.type_code());
        let cnt = e.value.count64();
        push_u32_le(&mut out, cnt as u32);
        let ds = e.value.data_size128();
        let strip_flag = e.value.is_strip();
        if strip_flag || ds > 4 {
            proof {
                lemma_prefix_sizes_bounds(vs, i as int + 1, n as int);
            }
            let off: u32 = if strip_flag {
                8 + table_sz + nonstrip_total + sp_run
            } else {
                8 + table_sz + ns_run
            };
            push_u32_le(&mut out, off);
            proof {
                assert(off == entry_data_offset(vs, i as int));
            }
            if strip_flag {
                sp_run = sp_run + (ds as u32);
            } else {
                ns_run = ns_run + (ds as u32);
            }
        } else {
            push_value_data(&mut out, &e.value);
            let ghost after_data = out@;
            let mut padk: u128 = ds;
            while padk < 4
                invariant
                    ds <= padk <= 4,
                    out@ == after_data + zero_pad((padk - ds) as nat),
                decreases 4 - padk,
            {
                out.push(0);
                proof {
                    assert(out@ =~= after_data + zero_pad((padk + 1 - ds) as nat));
                }
                padk = padk + 1;
            }
            proof {
                assert(out@ == after_data + zero_pad((4 - ds) as nat));
                assert(entry_field_bytes(vs, i as int) == vs[i as int].data + zero_pad(
                    (4 - vs[i as int].data.len()) as nat,
                ));
            }
        }
        proof {
            assert(out@ =~= pre_records + records_prefix_bytes(vs, i as int + 1));
        }
        i = i + 1;
    }
    push_u32_le(&mut out, 0);
    let ghost pre_blocks = pre_records + records_prefix_bytes(vs, n as int) + le32_bytes(0u32);
    proof {
        assert(out@ =~= pre_blocks + nonstrip_blocks_bytes(vs, 0));
    }
    let mut i: usize = 0;
    while i < n
        invariant
            0 <= i <= n,
            n == entries@.len(),
            vs == views_of(entries@),
            out@ == pre_blocks + nonstrip_blocks_bytes(vs, i as int),
        decreases n - i,
    {
        let e = &entries[i];
        proof {
            assert(vs[i as int] == entries@[i as int]@);
        }
        let ds = e.value.data_size128();
        let strip_flag = e.value.is_strip();
        if !strip_flag && ds > 4 {
            push_value_data(&mut out, &e.value);
        }
        proof {
            assert(out@ =~= pre_blocks + nonstrip_blocks_bytes(vs, i as int + 1));
        }
        i = i + 1;
    }
    let ghost pre_strips = pre_blocks + nonstrip_blocks_bytes(vs, n as int);
    proof {
        assert(out@ =~= pre_strips + strip_blocks_bytes(vs, 0));
    }
    let mut i: usize = 0;
    while i < n
        invariant
            0 <= i <= n,
            n == entries@.len(),
            vs == views_of(entries@),
            pre_strips == pre_blocks + nonstrip_blocks_bytes(vs, n as int),
            out@ == pre_strips + strip_blocks_bytes(vs, i as int),
        decreases n - i,
    {
        let e = &entries[i];
        proof {
            assert(vs[i as int] == entries@[i as int]@);
        }
        if e.value.is_strip() {
            push_value_data(&mut out, &e.value);
        }
        proof {
            assert(out@ =~= pre_strips + strip_blocks_bytes(vs, i as int + 1));
        }
        i = i + 1;
    }
    proof {
        assert(out@ =~= ifd_file_bytes(vs));
    }
    out
}

/// Appends a byte vector verbatim.
fn push_raw(out: &mut Vec<u8>, b: &Vec<u8>)
    ensures
        final(out)@ == old(out)@ + b@,
{
    let ghost base = out@;
    let n = b.len();
    let mut j: usize = 0;
    while j < n
        invariant
            0 <= j <= n,
            n == b@.len(),
            out@ == base + b@.take(j as int),
        decreases n - j,
    {
        out.push(b[j]);
        proof {
            assert(b@.take(j + 1int) =~= b@.take(j as int).push(b@[j as int]));
            assert(out@ =~= base + b@.take(j + 1int));
        }
        j = j + 1;
    }
    proof {
        assert(b@.take(n as int) =~= b@);
    }
}

} // verus!
