//! The blocks of a file and the decoder of each kind.

use vstd::prelude::*;
use vstd::slice::{slice_subrange, slice_to_vec};
use crate::data_types::blocktype::BlockType;
use crate::error::{DecompressReason, FstFileParseErrorKind, PositionError, fail, in_context};
use crate::primitives::{Outcome, agrees, be_u64_at, be_u64_value, in_bounds, rest_of, spec_be_u64};
use decompress::{
    gzip_decompress,
    lz4_decompress,
    lz4_double_decompress,
    spec_gunzip,
    spec_unlz4,
    spec_unlz4_twice,
};

pub mod blackout;
pub mod chain_table;
pub mod decompress;
pub mod geometry;
pub mod header;
pub mod hierarchy;
pub mod value_change_data;

verus! {

/// The most bytes that `extract_data` lets a compressed block expand to.
pub const DEFAULT_MAX_SIZE: usize = 0x4000_0000;

/// A block as it was framed: its kind and its payload, not yet decoded.
#[derive(Clone, Debug)]
pub struct Block {
    pub block_type: BlockType,
    pub data: Vec<u8>,
}

/// A block, in contracts.
pub struct BlockView {
    pub kind: BlockType,
    pub payload: Seq<u8>,
}

impl View for Block {
    type V = BlockView;

    open spec fn view(&self) -> BlockView {
        BlockView { kind: self.block_type, payload: self.data@ }
    }
}

/// What the eight bytes at `pos` say of the payload that follows them: its
/// length.  The number on the wire counts its own eight bytes too.
pub open spec fn spec_block_length(s: Seq<u8>, pos: int) -> Outcome<usize> {
    in_context(
        match spec_be_u64(s, pos) {
            Err(f) => Err(f),
            Ok((next, v)) => if v < 8 {
                Err(fail(pos, FstFileParseErrorKind::BlockLengthUnderflow))
            } else if v - 8 > usize::MAX {
                Err(fail(pos, FstFileParseErrorKind::LengthExceedsMachineWord))
            } else {
                Ok((next, (v - 8) as usize))
            },
        },
        pos,
        "block length",
    )
}

/// The length field at `pos` and the payload behind it.
pub open spec fn spec_block_data(s: Seq<u8>, pos: int) -> Outcome<Seq<u8>> {
    in_context(
        match spec_block_length(s, pos) {
            Err(f) => Err(f),
            Ok((next, len)) => if next + len <= s.len() {
                Ok((next + len, s.subrange(next, next + len)))
            } else {
                Err(fail(next, FstFileParseErrorKind::Truncated))
            },
        },
        pos,
        "block data length",
    )
}

/// The block at `pos`: a kind byte, the length field, the payload.
pub open spec fn spec_block(s: Seq<u8>, pos: int) -> Outcome<(BlockType, Seq<u8>)> {
    match in_context(BlockType::spec_parse_at(s, pos), pos, "block type") {
        Err(f) => Err(f),
        Ok((next, kind)) => match spec_block_data(s, next) {
            Err(f) => Err(f),
            Ok((end, payload)) => Ok((end, (kind, payload))),
        },
    }
}

/// The payload of a gzip-compressed block, expanded: eight bytes of declared
/// size, then the stream.
pub open spec fn spec_extract_gz(payload: Seq<u8>, max_size: usize) -> Result<
    Seq<u8>,
    DecompressReason,
> {
    if payload.len() < 8 {
        Err(DecompressReason::MissingLength)
    } else {
        spec_gunzip(payload.skip(8), max_size)
    }
}

/// The payload of an LZ4-compressed block, expanded: eight bytes of declared
/// size, then the LZ4 block.
pub open spec fn spec_extract_lz4(payload: Seq<u8>, max_size: usize) -> Result<
    Seq<u8>,
    DecompressReason,
> {
    if payload.len() < 8 {
        Err(DecompressReason::MissingLength)
    } else {
        spec_unlz4(payload.skip(8), be_u64_value(payload, 0) as u64, max_size)
    }
}

/// The payload of a block that was LZ4-compressed twice, expanded: eight
/// bytes of final size, eight of the size in between, then the LZ4 block.
pub open spec fn spec_extract_lz4_twice(payload: Seq<u8>, max_size: usize) -> Result<
    Seq<u8>,
    DecompressReason,
> {
    if payload.len() < 8 {
        Err(DecompressReason::MissingLength)
    } else {
        spec_unlz4_twice(payload.skip(8), be_u64_value(payload, 0) as u64, max_size)
    }
}

/// The content of a block of kind `kind`: the payload itself, or what it
/// expands to where the kind says that it is compressed.
pub open spec fn spec_extract_data(kind: BlockType, payload: Seq<u8>, max_size: usize) -> Result<
    Seq<u8>,
    DecompressReason,
> {
    match kind {
        BlockType::HierarchyGz | BlockType::GZippedWrapper => spec_extract_gz(payload, max_size),
        BlockType::HierarchyLz4 => spec_extract_lz4(payload, max_size),
        BlockType::HierarchyLz4Duo => spec_extract_lz4_twice(payload, max_size),
        _ => Ok(payload),
    }
}

/// The executable result `r` is the outcome `o`.
pub open spec fn extracted(r: Result<Vec<u8>, DecompressReason>, o: Result<
    Seq<u8>,
    DecompressReason,
>) -> bool {
    match (r, o) {
        (Ok(out), Ok(bytes)) => out@ == bytes,
        (Err(e), Err(f)) => e == f,
        _ => false,
    }
}

impl Block {
    /// A block of the given kind and payload.
    pub fn new(block_type: BlockType, data: Vec<u8>) -> (b: Block)
        ensures
            b.block_type == block_type,
            b.data@ == data@,
    {
        Block { block_type, data }
    }

    fn extract_data_gz(&self, max_size: usize) -> (r: Result<Vec<u8>, DecompressReason>)
        ensures
            extracted(r, spec_extract_gz(self.data@, max_size)),
    {
        if self.data.len() < 8 {
            return Err(DecompressReason::MissingLength);
        }
        gzip_decompress(rest_of(self.data.as_slice(), 8), max_size)
    }

    fn extract_data_lz4(&self, max_size: usize) -> (r: Result<Vec<u8>, DecompressReason>)
        ensures
            extracted(r, spec_extract_lz4(self.data@, max_size)),
    {
        let data: &[u8] = self.data.as_slice();
        match be_u64_at(data, 0) {
            Err(_) => Err(DecompressReason::MissingLength),
            Ok((next, declared)) => lz4_decompress(rest_of(data, next), declared, max_size),
        }
    }

    fn extract_data_lz4_twice(&self, max_size: usize) -> (r: Result<Vec<u8>, DecompressReason>)
        ensures
            extracted(r, spec_extract_lz4_twice(self.data@, max_size)),
    {
        let data: &[u8] = self.data.as_slice();
        match be_u64_at(data, 0) {
            Err(_) => Err(DecompressReason::MissingLength),
            Ok((next, declared)) => lz4_double_decompress(rest_of(data, next), declared, max_size),
        }
    }

    /// Extracts data from the block, letting compressed data expand to at
    /// most `max_size` bytes.
    pub fn extract_data_with_limit(&self, max_size: usize) -> (r: Result<
        Vec<u8>,
        DecompressReason,
    >)
        ensures
            extracted(r, spec_extract_data(self.block_type, self.data@, max_size)),
    {
        match self.block_type {
            BlockType::HierarchyGz | BlockType::GZippedWrapper => self.extract_data_gz(max_size),
            BlockType::HierarchyLz4 => self.extract_data_lz4(max_size),
            BlockType::HierarchyLz4Duo => self.extract_data_lz4_twice(max_size),
            _ => Ok(slice_to_vec(self.data.as_slice())),
        }
    }

    /// Extracts data from the block.  If the block content is compressed, it
    /// is expanded, to at most `DEFAULT_MAX_SIZE` bytes.
    pub fn extract_data(&self) -> (r: Result<Vec<u8>, DecompressReason>)
        ensures
            extracted(r, spec_extract_data(self.block_type, self.data@, DEFAULT_MAX_SIZE)),
    {
        self.extract_data_with_limit(DEFAULT_MAX_SIZE)
    }

    /// The length of the block in the file: its payload and the nine bytes
    /// before it; the greatest length there is where that would be above it.
    pub fn len(&self) -> (n: usize)
        ensures
            n == if self.data@.len() + 9 > usize::MAX {
                usize::MAX as int
            } else {
                (self.data@.len() + 9) as int
            },
    {
        let payload: usize = self.data.len();
        if payload > usize::MAX - 9 {
            usize::MAX
        } else {
            payload + 9
        }
    }

    /// Get the raw underlying data bytes.
    pub fn get_data_raw(&self) -> (data: &[u8])
        ensures
            data@ == self.data@,
    {
        self.data.as_slice()
    }

    /// Reads the length field at `pos` and gives the length of the payload.
    pub fn parse_block_length(input: &[u8], pos: usize) -> (r: Result<(usize, usize), PositionError>)
        ensures
            agrees(r, spec_block_length(input@, pos as int)),
    {
        match be_u64_at(input, pos) {
            Err(e) => Err(e.context(pos, "block length")),
            Ok((next, v)) => {
                if v < 8 {
                    Err(
                        PositionError::new(
                            pos,
                            FstFileParseErrorKind::BlockLengthUnderflow,
                        ).context(pos, "block length"),
                    )
                } else if v - 8 > usize::MAX as u64 {
                    Err(
                        PositionError::new(
                            pos,
                            FstFileParseErrorKind::LengthExceedsMachineWord,
                        ).context(pos, "block length"),
                    )
                } else {
                    Ok((next, (v - 8) as usize))
                }
            },
        }
    }

    /// Reads the block that starts at `pos`, and gives the offset behind it.
    pub fn parse_block_with_position(input: &[u8], pos: usize) -> (r: Result<
        (usize, Block),
        PositionError,
    >)
        ensures
            match (r, spec_block(input@, pos as int)) {
                (Ok((next, block)), Ok((n, (kind, payload)))) => next == n && block.block_type
                    == kind && block.data@ == payload,
                (Err(e), Err(f)) => e@ == f,
                _ => false,
            },
    {
        let (at, block_type) = match BlockType::parse_at(input, pos) {
            Ok(got) => got,
            Err(e) => {
                return Err(e.context(pos, "block type"));
            },
        };
        let (start, len) = match Block::parse_block_length(input, at) {
            Ok(got) => got,
            Err(e) => {
                return Err(e.context(at, "block data length"));
            },
        };
        if !in_bounds(input, start, len) {
            return Err(
                PositionError::new(start, FstFileParseErrorKind::Truncated).context(
                    at,
                    "block data length",
                ),
            );
        }
        let data: Vec<u8> = slice_to_vec(slice_subrange(input, start, start + len));
        Ok((start + len, Block { block_type, data }))
    }
}

} // verus!
