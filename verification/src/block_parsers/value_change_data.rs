//! The value-change block: its five regions, the time table and the chain
//! table.

use vstd::prelude::*;
use vstd::slice::{slice_subrange, slice_to_vec};
use crate::block_parsers::chain_table::{build_chain_table, chain_table_valid, spec_chain_table};
use crate::block_parsers::decompress::{
    region_bytes,
    spec_inflate,
    spec_region_bytes,
    zlib_decompress,
};
use crate::block_parsers::header::HeaderBlockContent;
use crate::block_parsers::{Block, BlockView, DEFAULT_MAX_SIZE};
use crate::data_types::blocktype::BlockType;
use crate::data_types::varint::{
    VarInt,
    lemma_varint_advances,
    parse_varints_exact,
    spec_varints_exact,
};
use crate::data_types::writer_pack_type::WriterPackType;
use crate::error::{Frames, FstFileParseErrorKind, PositionError, fail, in_expanded, shifted};
use crate::primitives::{
    be_u64_as_usize_at,
    be_u64_at,
    skip_at,
    spec_be_u64,
    spec_be_u64_as_usize,
    spec_skip,
};

verus! {

/// The length of the three fields at the end of the payload.
pub const SUFFIX_LEN: usize = 24;

/// The length of the field that holds the length of the position region.
pub const POSITION_LENGTH_LEN: usize = 8;

/// What the start of the payload says, up to the waves region.
#[derive(Debug, Clone, Copy, PartialEq)]
pub struct VcdHead {
    pub start_time: u64,
    pub end_time: u64,
    pub memory_required: u64,
    pub bits_uncompressed_len: usize,
    pub bits_count: VarInt,
    /// Where the bits region starts.
    pub bits_start: usize,
    /// Where the bits region ends and the waves header starts.
    pub bits_end: usize,
    pub waves_count: usize,
    pub waves_packtype: WriterPackType,
    /// Where the waves header ends and the waves region starts.
    pub waves_start: usize,
}

/// What the end of the payload says, back to the waves region.
#[derive(Debug, Clone, Copy, PartialEq)]
pub struct VcdTail {
    /// Where the waves region ends and the position region starts.
    pub position_start: usize,
    /// Where the position region ends and the field with its length starts.
    pub position_end: usize,
    /// Where the time region starts.
    pub time_start: usize,
    /// Where the time region ends and the last three fields start.
    pub time_end: usize,
    pub time_uncompressed_len: usize,
    pub time_count: usize,
}

/// Where each region of a payload lies.
#[derive(Debug, Clone, Copy, PartialEq)]
pub struct VcdLayout {
    pub head: VcdHead,
    pub tail: VcdTail,
}

/// The head of the payload `s`.
pub open spec fn spec_vcd_head(s: Seq<u8>) -> Result<VcdHead, Frames> {
    match spec_be_u64(s, 0) {
        Err(f) => Err(f),
        Ok((_, start_time)) => match spec_be_u64(s, 8) {
            Err(f) => Err(f),
            Ok((_, end_time)) => match spec_be_u64(s, 16) {
                Err(f) => Err(f),
                Ok((_, memory_required)) => match VarInt::spec_parse_as_usize_at(s, 24) {
                    Err(f) => Err(f),
                    Ok((at, bits_uncompressed_len)) => spec_vcd_bits(
                        s,
                        at,
                        start_time,
                        end_time,
                        memory_required,
                        bits_uncompressed_len,
                    ),
                },
            },
        },
    }
}

/// The head of the payload `s` from the length of its bits region on.
pub open spec fn spec_vcd_bits(
    s: Seq<u8>,
    at: int,
    start_time: u64,
    end_time: u64,
    memory_required: u64,
    bits_uncompressed_len: usize,
) -> Result<VcdHead, Frames> {
    match VarInt::spec_parse_as_usize_at(s, at) {
        Err(f) => Err(f),
        Ok((at, bits_compressed_len)) => match VarInt::spec_parse_at(s, at) {
            Err(f) => Err(f),
            Ok((bits_start, bits_count)) => match spec_skip(
                s,
                bits_start,
                bits_compressed_len as int,
            ) {
                Err(f) => Err(f),
                Ok((bits_end, _)) => match VarInt::spec_parse_as_usize_at(s, bits_end) {
                    Err(f) => Err(f),
                    Ok((at, waves_count)) => match WriterPackType::spec_parse_at(s, at) {
                        Err(f) => Err(f),
                        Ok((waves_start, waves_packtype)) => Ok(
                            VcdHead {
                                start_time,
                                end_time,
                                memory_required,
                                bits_uncompressed_len,
                                bits_count,
                                bits_start: bits_start as usize,
                                bits_end: bits_end as usize,
                                waves_count,
                                waves_packtype,
                                waves_start: waves_start as usize,
                            },
                        ),
                    },
                },
            },
        },
    }
}

/// The frames of a split that does not fit, found at `pos`.
pub open spec fn bad_split(pos: int) -> Frames {
    fail(pos, FstFileParseErrorKind::ChainTableMalformed)
}

/// The tail of the payload `s`, whose waves region starts at `waves_start`:
/// the three fields at the end, the time region before them, the length of
/// the position region before that, and the position region before that.
/// Each length must leave room for what stands before it.
pub open spec fn spec_vcd_tail(s: Seq<u8>, waves_start: int) -> Result<VcdTail, Frames> {
    let time_end = s.len() - SUFFIX_LEN;
    if time_end < waves_start {
        Err(bad_split(waves_start))
    } else {
        match spec_be_u64_as_usize(s, time_end) {
            Err(f) => Err(f),
            Ok((_, time_uncompressed_len)) => match spec_be_u64_as_usize(s, time_end + 8) {
                Err(f) => Err(f),
                Ok((_, time_compressed_len)) => match spec_be_u64_as_usize(s, time_end + 16) {
                    Err(f) => Err(f),
                    Ok((_, time_count)) => {
                        let time_start = time_end - time_compressed_len;
                        let position_end = time_start - POSITION_LENGTH_LEN;
                        if position_end < waves_start {
                            Err(bad_split(time_end + 8))
                        } else {
                            match spec_be_u64_as_usize(s, position_end) {
                                Err(f) => Err(f),
                                Ok((_, position_len)) => if position_end - position_len
                                    < waves_start {
                                    Err(bad_split(position_end))
                                } else {
                                    Ok(
                                        VcdTail {
                                            position_start: (position_end - position_len) as usize,
                                            position_end: position_end as usize,
                                            time_start: time_start as usize,
                                            time_end: time_end as usize,
                                            time_uncompressed_len,
                                            time_count,
                                        },
                                    )
                                },
                            }
                        }
                    },
                },
            },
        }
    }
}

/// Where the regions of the payload `s` lie.
pub open spec fn spec_layout(s: Seq<u8>) -> Result<VcdLayout, Frames> {
    match spec_vcd_head(s) {
        Err(f) => Err(f),
        Ok(head) => match spec_vcd_tail(s, head.waves_start as int) {
            Err(f) => Err(f),
            Ok(tail) => Ok(VcdLayout { head, tail }),
        },
    }
}

impl VcdLayout {
    /// The cuts stand in ascending order within a payload of `len` bytes,
    /// with the fixed fields between them.
    pub open spec fn fits(self, len: int) -> bool {
        &&& 24 < self.head.bits_start <= self.head.bits_end < self.head.waves_start
        &&& self.head.waves_start <= self.tail.position_start <= self.tail.position_end
        &&& self.tail.position_end + POSITION_LENGTH_LEN == self.tail.time_start
        &&& self.tail.time_start <= self.tail.time_end
        &&& self.tail.time_end + SUFFIX_LEN == len
    }

    /// The fields before the bits region.
    pub open spec fn prefix(self, s: Seq<u8>) -> Seq<u8> {
        s.subrange(0, self.head.bits_start as int)
    }

    /// The bits region.
    pub open spec fn bits(self, s: Seq<u8>) -> Seq<u8> {
        s.subrange(self.head.bits_start as int, self.head.bits_end as int)
    }

    /// The two fields between the bits region and the waves region.
    pub open spec fn waves_header(self, s: Seq<u8>) -> Seq<u8> {
        s.subrange(self.head.bits_end as int, self.head.waves_start as int)
    }

    /// The waves region.
    pub open spec fn waves(self, s: Seq<u8>) -> Seq<u8> {
        s.subrange(self.head.waves_start as int, self.tail.position_start as int)
    }

    /// The position region.
    pub open spec fn position(self, s: Seq<u8>) -> Seq<u8> {
        s.subrange(self.tail.position_start as int, self.tail.position_end as int)
    }

    /// The field that holds the length of the position region.
    pub open spec fn position_length(self, s: Seq<u8>) -> Seq<u8> {
        s.subrange(self.tail.position_end as int, self.tail.time_start as int)
    }

    /// The time region.
    pub open spec fn time(self, s: Seq<u8>) -> Seq<u8> {
        s.subrange(self.tail.time_start as int, self.tail.time_end as int)
    }

    /// The three fields at the end.
    pub open spec fn suffix(self, s: Seq<u8>) -> Seq<u8> {
        s.subrange(self.tail.time_end as int, s.len() as int)
    }

    /// Finds the regions of a payload.
    pub fn split(input: &[u8]) -> (r: Result<VcdLayout, PositionError>)
        ensures
            match (r, spec_layout(input@)) {
                (Ok(layout), Ok(l)) => layout == l && layout.fits(input@.len() as int),
                (Err(e), Err(f)) => e@ == f,
                _ => false,
            },
    {
        let head: VcdHead = match read_head(input) {
            Ok(head) => head,
            Err(e) => {
                return Err(e);
            },
        };
        match read_tail(input, head.waves_start) {
            Ok(tail) => Ok(VcdLayout { head, tail }),
            Err(e) => Err(e),
        }
    }
}

/// The cuts of a head stand in ascending order within the payload.
pub proof fn lemma_head_fits(s: Seq<u8>)
    requires
        s.len() <= usize::MAX,
        spec_vcd_head(s) is Ok,
    ensures
        ({
            let h = spec_vcd_head(s)->Ok_0;
            24 < h.bits_start <= h.bits_end < h.waves_start <= s.len()
        }),
{
    let at1 = VarInt::spec_parse_at(s, 24)->Ok_0.0;
    lemma_varint_advances(s, 24);
    let at2 = VarInt::spec_parse_at(s, at1)->Ok_0.0;
    lemma_varint_advances(s, at1);
    let bits_start = VarInt::spec_parse_at(s, at2)->Ok_0.0;
    lemma_varint_advances(s, at2);
    let len = VarInt::spec_parse_at(s, at1)->Ok_0.1.0;
    let bits_end = bits_start + len;
    lemma_varint_advances(s, bits_end);
}

/// Two pieces of a sequence that meet make up the piece from the start of
/// the first to the end of the second.
pub proof fn lemma_join(s: Seq<u8>, a: int, b: int, c: int)
    requires
        0 <= a <= b <= c <= s.len(),
    ensures
        s.subrange(a, b) + s.subrange(b, c) == s.subrange(a, c),
{
    assert(s.subrange(a, b) + s.subrange(b, c) =~= s.subrange(a, c));
}

/// The regions of a payload that splits are disjoint, stand in ascending
/// order, and give back the payload when they are joined with the fields
/// between them.
pub proof fn lemma_regions_rebuild_payload(s: Seq<u8>)
    requires
        s.len() <= usize::MAX,
        spec_layout(s) is Ok,
    ensures
        spec_layout(s)->Ok_0.fits(s.len() as int),
        ({
            let l = spec_layout(s)->Ok_0;
            s == l.prefix(s) + l.bits(s) + l.waves_header(s) + l.waves(s) + l.position(s)
                + l.position_length(s) + l.time(s) + l.suffix(s)
        }),
{
    let l = spec_layout(s)->Ok_0;
    lemma_head_fits(s);
    assert(l.fits(s.len() as int));
    lemma_join(s, 0, l.head.bits_start as int, l.head.bits_end as int);
    lemma_join(s, 0, l.head.bits_end as int, l.head.waves_start as int);
    lemma_join(s, 0, l.head.waves_start as int, l.tail.position_start as int);
    lemma_join(s, 0, l.tail.position_start as int, l.tail.position_end as int);
    lemma_join(s, 0, l.tail.position_end as int, l.tail.time_start as int);
    lemma_join(s, 0, l.tail.time_start as int, l.tail.time_end as int);
    lemma_join(s, 0, l.tail.time_end as int, s.len() as int);
    assert(s.subrange(0, s.len() as int) =~= s);
}

fn read_head(input: &[u8]) -> (r: Result<VcdHead, PositionError>)
    ensures
        match (r, spec_vcd_head(input@)) {
            (Ok(head), Ok(h)) => head == h && 24 < head.bits_start <= head.bits_end
                < head.waves_start <= input@.len(),
            (Err(e), Err(f)) => e@ == f,
            _ => false,
        },
{
    let (at, start_time) = match be_u64_at(input, 0) {
        Ok(got) => got,
        Err(e) => {
            return Err(e);
        },
    };
    let (at, end_time) = match be_u64_at(input, at) {
        Ok(got) => got,
        Err(e) => {
            return Err(e);
        },
    };
    let (at, memory_required) = match be_u64_at(input, at) {
        Ok(got) => got,
        Err(e) => {
            return Err(e);
        },
    };
    let (at, bits_uncompressed_len) = match VarInt::parse_as_usize_at(input, at) {
        Ok(got) => got,
        Err(e) => {
            return Err(e);
        },
    };
    let (at, bits_compressed_len) = match VarInt::parse_as_usize_at(input, at) {
        Ok(got) => got,
        Err(e) => {
            return Err(e);
        },
    };
    let (bits_start, bits_count) = match VarInt::parse_at(input, at) {
        Ok(got) => got,
        Err(e) => {
            return Err(e);
        },
    };
    let (bits_end, _) = match skip_at(input, bits_start, bits_compressed_len) {
        Ok(got) => got,
        Err(e) => {
            return Err(e);
        },
    };
    let (at, waves_count) = match VarInt::parse_as_usize_at(input, bits_end) {
        Ok(got) => got,
        Err(e) => {
            return Err(e);
        },
    };
    let (waves_start, waves_packtype) = match WriterPackType::parse_at(input, at) {
        Ok(got) => got,
        Err(e) => {
            return Err(e);
        },
    };
    Ok(
        VcdHead {
            start_time,
            end_time,
            memory_required,
            bits_uncompressed_len,
            bits_count,
            bits_start,
            bits_end,
            waves_count,
            waves_packtype,
            waves_start,
        },
    )
}

fn read_tail(input: &[u8], waves_start: usize) -> (r: Result<VcdTail, PositionError>)
    requires
        waves_start <= input@.len(),
    ensures
        match (r, spec_vcd_tail(input@, waves_start as int)) {
            (Ok(tail), Ok(t)) => tail == t && waves_start <= tail.position_start
                <= tail.position_end && tail.position_end + POSITION_LENGTH_LEN == tail.time_start
                && tail.time_start <= tail.time_end && tail.time_end + SUFFIX_LEN == input@.len(),
            (Err(e), Err(f)) => e@ == f,
            _ => false,
        },
{
    if input.len() - waves_start < SUFFIX_LEN {
        return Err(PositionError::new(waves_start, FstFileParseErrorKind::ChainTableMalformed));
    }
    let time_end: usize = input.len() - SUFFIX_LEN;
    let (at, time_uncompressed_len) = match be_u64_as_usize_at(input, time_end) {
        Ok(got) => got,
        Err(e) => {
            return Err(e);
        },
    };
    let (at, time_compressed_len) = match be_u64_as_usize_at(input, at) {
        Ok(got) => got,
        Err(e) => {
            return Err(e);
        },
    };
    let (_, time_count) = match be_u64_as_usize_at(input, at) {
        Ok(got) => got,
        Err(e) => {
            return Err(e);
        },
    };
    let room: usize = time_end - waves_start;
    if room < POSITION_LENGTH_LEN || time_compressed_len > room - POSITION_LENGTH_LEN {
        return Err(PositionError::new(time_end + 8, FstFileParseErrorKind::ChainTableMalformed));
    }
    let time_start: usize = time_end - time_compressed_len;
    let position_end: usize = time_start - POSITION_LENGTH_LEN;
    let (_, position_len) = match be_u64_as_usize_at(input, position_end) {
        Ok(got) => got,
        Err(e) => {
            return Err(e);
        },
    };
    if position_len > position_end - waves_start {
        return Err(PositionError::new(position_end, FstFileParseErrorKind::ChainTableMalformed));
    }
    Ok(
        VcdTail {
            position_start: position_end - position_len,
            position_end,
            time_start,
            time_end,
            time_uncompressed_len,
            time_count,
        },
    )
}

/// A value-change block, with what it decodes to once that has been asked
/// for, and the count of variables that it was decoded for.
#[derive(Debug)]
pub struct ValueChangeDataBlock {
    block: Block,
    decoded: Option<(u64, Result<ValueChangeData, PositionError>)>,
}

impl View for ValueChangeDataBlock {
    type V = BlockView;

    closed spec fn view(&self) -> BlockView {
        self.block@
    }
}

/// The executable result `r` is the outcome `o`.
pub open spec fn content_agrees(
    r: Result<ValueChangeData, PositionError>,
    o: Result<ValueChangeDataView, Frames>,
) -> bool {
    match (r, o) {
        (Ok(c), Ok(v)) => c@ == v,
        (Err(e), Err(f)) => e@ == f,
        _ => false,
    }
}

/// The executable result `r` is the outcome `o`.
pub open spec fn intermediate_agrees(
    r: Result<ValueChangeDataIntermediate, PositionError>,
    o: Result<IntermediateView, Frames>,
) -> bool {
    match (r, o) {
        (Ok(c), Ok(v)) => c@ == v,
        (Err(e), Err(f)) => e@ == f,
        _ => false,
    }
}

/// The regions of a value-change block, expanded where they were
/// compressed, and the time table as it stands in the block.
#[derive(Debug, Clone)]
pub struct ValueChangeDataIntermediate {
    pub start_time: u64,
    pub end_time: u64,
    pub memory_required: u64,
    pub bits_data: Vec<u8>,
    pub position_data_raw: Vec<u8>,
    pub time_data: Vec<VarInt>,
    pub wave_data_raw: Vec<u8>,
    pub waves_packtype: WriterPackType,
    pub waves_count: usize,
    /// Where the position region starts in the payload.
    pub position_offset: usize,
    /// Where the time region starts in the payload.
    pub time_offset: usize,
}

/// The intermediate content, in contracts.
pub struct IntermediateView {
    pub start_time: u64,
    pub end_time: u64,
    pub memory_required: u64,
    pub bits_data: Seq<u8>,
    pub position_data_raw: Seq<u8>,
    pub time_data: Seq<VarInt>,
    pub wave_data_raw: Seq<u8>,
    pub waves_packtype: WriterPackType,
    pub waves_count: usize,
    pub position_offset: usize,
    pub time_offset: usize,
}

impl View for ValueChangeDataIntermediate {
    type V = IntermediateView;

    open spec fn view(&self) -> IntermediateView {
        IntermediateView {
            start_time: self.start_time,
            end_time: self.end_time,
            memory_required: self.memory_required,
            bits_data: self.bits_data@,
            position_data_raw: self.position_data_raw@,
            time_data: self.time_data@,
            wave_data_raw: self.wave_data_raw@,
            waves_packtype: self.waves_packtype,
            waves_count: self.waves_count,
            position_offset: self.position_offset,
            time_offset: self.time_offset,
        }
    }
}

/// The decoded content of a value-change block.
#[derive(Debug, Clone)]
pub struct ValueChangeData {
    /// The absolute times.
    pub time_data: Vec<u64>,
    /// `chain_offset`, one entry per variable and one more.
    pub chain_table: Vec<i64>,
    /// `chain_length`, of the same length.
    pub chain_table_lengths: Vec<u32>,
}

/// The decoded content, in contracts.
pub struct ValueChangeDataView {
    pub time_data: Seq<u64>,
    pub chain_table: Seq<i64>,
    pub chain_table_lengths: Seq<u32>,
}

impl View for ValueChangeData {
    type V = ValueChangeDataView;

    open spec fn view(&self) -> ValueChangeDataView {
        ValueChangeDataView {
            time_data: self.time_data@,
            chain_table: self.chain_table@,
            chain_table_lengths: self.chain_table_lengths@,
        }
    }
}

/// The time table of a time region: `count` numbers that make up the
/// region, or what it expands to.  Errors in a stored region are counted
/// from the start of the payload; errors in an expanded one from its own
/// start, and they are marked as errors of expanded data.
pub open spec fn spec_time_table(
    raw: Seq<u8>,
    declared: usize,
    count: usize,
    base: int,
    max_size: usize,
) -> Result<Seq<VarInt>, Frames> {
    if raw.len() == declared {
        match spec_varints_exact(raw, count as nat) {
            Err(f) => Err(shifted(f, base)),
            Ok(deltas) => Ok(deltas),
        }
    } else {
        match spec_inflate(raw, max_size) {
            Err(reason) => Err(fail(base, FstFileParseErrorKind::DecompressError(reason))),
            Ok(data) => match spec_varints_exact(data, count as nat) {
                Err(f) => Err(in_expanded(f, base)),
                Ok(deltas) => Ok(deltas),
            },
        }
    }
}

/// The intermediate content of the payload `s`.
pub open spec fn spec_intermediate(s: Seq<u8>, max_size: usize) -> Result<IntermediateView, Frames> {
    match spec_layout(s) {
        Err(f) => Err(f),
        Ok(l) => match spec_region_bytes(l.bits(s), l.head.bits_uncompressed_len, max_size) {
            Err(reason) => Err(
                fail(l.head.bits_start as int, FstFileParseErrorKind::DecompressError(reason)),
            ),
            Ok(bits_data) => match spec_time_table(
                l.time(s),
                l.tail.time_uncompressed_len,
                l.tail.time_count,
                l.tail.time_start as int,
                max_size,
            ) {
                Err(f) => Err(f),
                Ok(time_data) => Ok(
                    IntermediateView {
                        start_time: l.head.start_time,
                        end_time: l.head.end_time,
                        memory_required: l.head.memory_required,
                        bits_data,
                        position_data_raw: l.position(s),
                        time_data,
                        wave_data_raw: l.waves(s),
                        waves_packtype: l.head.waves_packtype,
                        waves_count: l.head.waves_count,
                        position_offset: l.tail.position_start,
                        time_offset: l.tail.time_start,
                    },
                ),
            },
        },
    }
}

/// The sum of the first `n` numbers of `d`.
pub open spec fn sum_of(d: Seq<VarInt>, n: int) -> int
    decreases n,
{
    if n <= 0 {
        0
    } else {
        sum_of(d, n - 1) + d[n - 1].0
    }
}

/// The absolute times that the time steps `d` add up to; an error at `base`
/// where they leave the 64-bit range.
pub open spec fn spec_times(d: Seq<VarInt>, base: int) -> Result<Seq<u64>, Frames> {
    if sum_of(d, d.len() as int) > u64::MAX {
        Err(fail(base, FstFileParseErrorKind::VarintOverflow))
    } else {
        Ok(Seq::new(d.len(), |i: int| sum_of(d, i + 1) as u64))
    }
}

/// A longer sum is not smaller.
pub proof fn lemma_sum_of_grows(d: Seq<VarInt>, n: int, m: int)
    requires
        0 <= n <= m,
    ensures
        0 <= sum_of(d, n) <= sum_of(d, m),
    decreases m,
{
    if n < m {
        lemma_sum_of_grows(d, n, m - 1);
    } else if n > 0 {
        lemma_sum_of_grows(d, n - 1, m - 1);
    }
}

/// The absolute times never go back, and the last is the sum of all steps.
pub proof fn lemma_times_ascend(d: Seq<VarInt>, base: int)
    requires
        spec_times(d, base) is Ok,
    ensures
        ({
            let t = spec_times(d, base)->Ok_0;
            &&& t.len() == d.len()
            &&& forall|i: int, j: int|
                #![trigger t[i], t[j]]
                0 <= i <= j < t.len() ==> t[i] <= t[j]
            &&& t.len() > 0 ==> t.last() == sum_of(d, d.len() as int)
        }),
{
    let t = spec_times(d, base)->Ok_0;
    assert forall|i: int, j: int| #![trigger t[i], t[j]] 0 <= i <= j < t.len() implies t[i]
        <= t[j] by {
        lemma_sum_of_grows(d, i + 1, j + 1);
        lemma_sum_of_grows(d, j + 1, d.len() as int);
    }
    if t.len() > 0 {
        lemma_sum_of_grows(d, d.len() as int, d.len() as int);
        assert(t[t.len() - 1] == sum_of(d, d.len() as int));
    }
}

/// Adds the time steps up to absolute times.
pub fn expand_times(deltas: &Vec<VarInt>, base: usize) -> (r: Result<Vec<u64>, PositionError>)
    ensures
        match (r, spec_times(deltas@, base as int)) {
            (Ok(times), Ok(t)) => times@ == t,
            (Err(e), Err(f)) => e@ == f,
            _ => false,
        },
{
    let mut times: Vec<u64> = Vec::new();
    let mut acc: u64 = 0;
    let mut i: usize = 0;
    while i < deltas.len()
        invariant
            i <= deltas.len(),
            acc == sum_of(deltas@, i as int),
            times@.len() == i,
            forall|j: int| 0 <= j < i ==> times@[j] == sum_of(deltas@, j + 1),
        decreases deltas.len() - i,
    {
        let step: u64 = deltas[i].0;
        if step > u64::MAX - acc {
            proof {
                lemma_sum_of_grows(deltas@, i + 1, deltas@.len() as int);
            }
            return Err(PositionError::new(base, FstFileParseErrorKind::VarintOverflow));
        }
        acc = acc + step;
        times.push(acc);
        i = i + 1;
    }
    proof {
        assert(times@ =~= spec_times(deltas@, base as int)->Ok_0);
    }
    Ok(times)
}

/// The decoded content of a block of kind `kind` with payload `s`, in a file
/// whose header counts `num_vars` variables.  Only the kind with signed alias
/// marks is decoded, and the count of variables must fit 32 bits.
pub open spec fn spec_value_change_data(
    kind: BlockType,
    s: Seq<u8>,
    num_vars: u64,
    max_size: usize,
) -> Result<ValueChangeDataView, Frames> {
    if kind != BlockType::ValueChangeDataAlias2 {
        Err(fail(0, FstFileParseErrorKind::UnknownBlockKind(kind.code())))
    } else if num_vars > u32::MAX {
        Err(fail(0, FstFileParseErrorKind::LengthExceedsMachineWord))
    } else {
        match spec_intermediate(s, max_size) {
            Err(f) => Err(f),
            Ok(c) => match spec_times(c.time_data, c.time_offset as int) {
                Err(f) => Err(f),
                Ok(time_data) => match spec_chain_table(
                    c.position_data_raw,
                    c.waves_count as nat,
                    c.wave_data_raw.len(),
                    c.position_offset as int,
                ) {
                    Err(f) => Err(f),
                    Ok((chain_table, chain_table_lengths)) => Ok(
                        ValueChangeDataView { time_data, chain_table, chain_table_lengths },
                    ),
                },
            },
        }
    }
}

/// Reads the time table from the bytes of a time region.  The offsets of an
/// error are raised by `base`.
pub fn time_table(data: &[u8], count: usize, base: usize) -> (r: Result<Vec<VarInt>, PositionError>)
    ensures
        match (r, spec_varints_exact(data@, count as nat)) {
            (Ok(deltas), Ok(d)) => deltas@ == d,
            (Err(e), Err(f)) => e@ == shifted(f, base as int),
            _ => false,
        },
{
    match parse_varints_exact(data, count) {
        Ok(deltas) => Ok(deltas),
        Err(e) => Err(e.shifted(base)),
    }
}

impl ValueChangeDataBlock {
    /// What is kept is what the block decodes to, for the count that is kept
    /// with it.
    #[verifier::type_invariant]
    closed spec fn coherent(self) -> bool {
        match self.decoded {
            None => true,
            Some((num_vars, r)) => content_agrees(
                r,
                spec_value_change_data(
                    self.block.block_type,
                    self.block.data@,
                    num_vars,
                    DEFAULT_MAX_SIZE,
                ),
            ),
        }
    }

    /// Takes a framed block as a value-change block.
    pub fn from_block(block: Block) -> (b: ValueChangeDataBlock)
        ensures
            b@ == block@,
    {
        ValueChangeDataBlock { block, decoded: None }
    }

    /// The framed block.
    pub fn block(&self) -> (b: &Block)
        ensures
            b@ == self@,
    {
        &self.block
    }

    /// Splits the block into its regions and expands those that are
    /// compressed, each to at most `max_size` bytes.
    pub fn get_intermediate_content_with_limit(&self, max_size: usize) -> (r: Result<
        ValueChangeDataIntermediate,
        PositionError,
    >)
        ensures
            intermediate_agrees(r, spec_intermediate(self@.payload, max_size)),
    {
        let input: &[u8] = self.block.get_data_raw();
        let layout: VcdLayout = match VcdLayout::split(input) {
            Ok(layout) => layout,
            Err(e) => {
                return Err(e);
            },
        };
        let bits_raw: &[u8] = slice_subrange(input, layout.head.bits_start, layout.head.bits_end);
        let bits_data: Vec<u8> = match region_bytes(
            bits_raw,
            layout.head.bits_uncompressed_len,
            max_size,
        ) {
            Ok(bits) => bits,
            Err(reason) => {
                return Err(
                    PositionError::new(
                        layout.head.bits_start,
                        FstFileParseErrorKind::DecompressError(reason),
                    ),
                );
            },
        };
        let time_raw: &[u8] = slice_subrange(input, layout.tail.time_start, layout.tail.time_end);
        let time_data: Vec<VarInt> = if time_raw.len() == layout.tail.time_uncompressed_len {
            match time_table(time_raw, layout.tail.time_count, layout.tail.time_start) {
                Ok(deltas) => deltas,
                Err(e) => {
                    return Err(e);
                },
            }
        } else {
            match zlib_decompress(time_raw, max_size) {
                Err(reason) => {
                    return Err(
                        PositionError::new(
                            layout.tail.time_start,
                            FstFileParseErrorKind::DecompressError(reason),
                        ),
                    );
                },
                Ok(data) => match parse_varints_exact(data.as_slice(), layout.tail.time_count) {
                    Ok(deltas) => deltas,
                    Err(e) => {
                        return Err(e.expanded(layout.tail.time_start));
                    },
                },
            }
        };
        Ok(
            ValueChangeDataIntermediate {
                start_time: layout.head.start_time,
                end_time: layout.head.end_time,
                memory_required: layout.head.memory_required,
                bits_data,
                position_data_raw: slice_to_vec(
                    slice_subrange(input, layout.tail.position_start, layout.tail.position_end),
                ),
                time_data,
                wave_data_raw: slice_to_vec(
                    slice_subrange(input, layout.head.waves_start, layout.tail.position_start),
                ),
                waves_packtype: layout.head.waves_packtype,
                waves_count: layout.head.waves_count,
                position_offset: layout.tail.position_start,
                time_offset: layout.tail.time_start,
            },
        )
    }

    /// Splits the block into its regions and expands those that are
    /// compressed, each to at most `DEFAULT_MAX_SIZE` bytes.
    pub fn get_intermediate_content(&self, _header_content: &HeaderBlockContent) -> (r: Result<
        ValueChangeDataIntermediate,
        PositionError,
    >)
        ensures
            intermediate_agrees(r, spec_intermediate(self@.payload, DEFAULT_MAX_SIZE)),
    {
        self.get_intermediate_content_with_limit(DEFAULT_MAX_SIZE)
    }

    /// Decodes the block: the absolute times and the chain table.  Regions
    /// that are compressed may expand to `max_size` bytes each.  On success the
    /// chain table meets `chain_table_valid`.
    pub fn get_content_with_limit(
        &self,
        header_content: &HeaderBlockContent,
        max_size: usize,
    ) -> (r: Result<ValueChangeData, PositionError>)
        ensures
            content_agrees(
                r,
                spec_value_change_data(
                    self@.kind,
                    self@.payload,
                    header_content.num_vars,
                    max_size,
                ),
            ),
            match (r, spec_intermediate(self@.payload, max_size)) {
                (Ok(c), Ok(v)) => chain_table_valid(
                    c.chain_table@,
                    c.chain_table_lengths@,
                    v.waves_count as nat,
                    v.wave_data_raw.len(),
                ),
                (Ok(c), Err(_)) => false,
                _ => true,
            },
    {
        match self.block.block_type {
            BlockType::ValueChangeDataAlias2 => {},
            _ => {
                return Err(
                    PositionError::new(
                        0,
                        FstFileParseErrorKind::UnknownBlockKind(self.block.block_type.as_u8()),
                    ),
                );
            },
        }
        if header_content.num_vars > u32::MAX as u64 {
            return Err(PositionError::new(0, FstFileParseErrorKind::LengthExceedsMachineWord));
        }
        let content: ValueChangeDataIntermediate = match self.get_intermediate_content_with_limit(
            max_size,
        ) {
            Ok(content) => content,
            Err(e) => {
                return Err(e);
            },
        };
        let time_data: Vec<u64> = match expand_times(&content.time_data, content.time_offset) {
            Ok(times) => times,
            Err(e) => {
                return Err(e);
            },
        };
        match build_chain_table(
            content.position_data_raw.as_slice(),
            content.waves_count,
            content.wave_data_raw.len(),
            content.position_offset,
        ) {
            Err(e) => Err(e),
            Ok((chain_table, chain_table_lengths)) => Ok(
                ValueChangeData { time_data, chain_table, chain_table_lengths },
            ),
        }
    }

    /// Decodes the block: the absolute times and the chain table.  Regions
    /// that are compressed may expand to `DEFAULT_MAX_SIZE` bytes each.  On
    /// success the chain table meets `chain_table_valid`.
    pub fn get_content(&self, header_content: &HeaderBlockContent) -> (r: Result<
        ValueChangeData,
        PositionError,
    >)
        ensures
            content_agrees(
                r,
                spec_value_change_data(
                    self@.kind,
                    self@.payload,
                    header_content.num_vars,
                    DEFAULT_MAX_SIZE,
                ),
            ),
            match (r, spec_intermediate(self@.payload, DEFAULT_MAX_SIZE)) {
                (Ok(c), Ok(v)) => chain_table_valid(
                    c.chain_table@,
                    c.chain_table_lengths@,
                    v.waves_count as nat,
                    v.wave_data_raw.len(),
                ),
                (Ok(c), Err(_)) => false,
                _ => true,
            },
    {
        self.get_content_with_limit(header_content, DEFAULT_MAX_SIZE)
    }

    /// What the block decodes to in a file whose header is `header_content`,
    /// with regions expanding to at most `DEFAULT_MAX_SIZE` bytes each.  It is
    /// decoded when this is first asked for, and the result is kept; it is
    /// decoded anew only where the header counts another number of variables
    /// than the one it was decoded for.
    pub fn decoded(&mut self, header_content: &HeaderBlockContent) -> (r: Result<
        &ValueChangeData,
        &PositionError,
    >)
        ensures
            match (
                r,
                spec_value_change_data(
                    old(self)@.kind,
                    old(self)@.payload,
                    header_content.num_vars,
                    DEFAULT_MAX_SIZE,
                ),
            ) {
                (Ok(c), Ok(v)) => c@ == v,
                (Err(e), Err(f)) => e@ == f,
                _ => false,
            },
            final(self)@ == old(self)@,
    {
        proof {
            use_type_invariant(&*self);
        }
        let kept: bool = match &self.decoded {
            Some((num_vars, _)) => *num_vars == header_content.num_vars,
            None => false,
        };
        if !kept {
            let fresh = self.get_content(header_content);
            self.decoded = Some((header_content.num_vars, fresh));
        }
        match &self.decoded {
            Some((_, Ok(content))) => Ok(content),
            Some((_, Err(e))) => Err(e),
            None => vstd::pervasive::unreached(),
        }
    }
}

} // verus!
