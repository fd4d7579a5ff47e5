//! A framed block together with its place in the file.

use vstd::prelude::*;
use crate::block_parsers::Block;
use crate::data_types::blocktype::BlockType;

verus! {

/// The bytes of a block that stand before its payload: the kind byte and
/// the length field.
pub const BLOCK_HEADER_LEN: usize = 9;

/// A framed block, in contracts.
pub struct FramedBlock {
    pub kind: BlockType,
    /// The offset of the kind byte.
    pub start_offset: int,
    /// All bytes of the block: kind byte, length field and payload.
    pub total_length: int,
    pub payload: Seq<u8>,
}

/// A framed block and where it stands in the file.
#[derive(Debug)]
pub struct BlockInfo {
    block: Block,
    start_position: usize,
    size: usize,
}

impl View for BlockInfo {
    type V = FramedBlock;

    closed spec fn view(&self) -> FramedBlock {
        FramedBlock {
            kind: self.block.block_type,
            start_offset: self.start_position as int,
            total_length: self.size as int,
            payload: self.block.data@,
        }
    }
}

impl BlockInfo {
    /// The block has nine bytes more than its payload, and ends within the
    /// address space.
    #[verifier::type_invariant]
    closed spec fn well_formed(self) -> bool {
        &&& self.size == self.block.data@.len() + BLOCK_HEADER_LEN
        &&& self.start_position + self.size <= usize::MAX
    }

    /// The offset of the kind byte.
    pub fn get_block_start_offset(&self) -> (r: usize)
        ensures
            r == self@.start_offset,
    {
        self.start_position
    }

    /// The offset of the payload.
    pub fn get_data_start_offset(&self) -> (r: usize)
        ensures
            r == self@.start_offset + BLOCK_HEADER_LEN,
    {
        proof {
            use_type_invariant(self);
        }
        self.start_position + BLOCK_HEADER_LEN
    }

    /// The offset behind the last byte of the block.
    pub fn get_block_end_offset(&self) -> (r: usize)
        ensures
            r == self@.start_offset + self@.total_length,
    {
        proof {
            use_type_invariant(self);
        }
        self.start_position + self.size
    }

    /// The length of the block: kind byte, length field and payload.
    pub fn get_block_length(&self) -> (r: usize)
        ensures
            r == self@.total_length,
            r == self@.payload.len() + BLOCK_HEADER_LEN,
    {
        proof {
            use_type_invariant(self);
        }
        self.size
    }

    /// The length of the payload.
    pub fn get_data_length(&self) -> (r: usize)
        ensures
            r == self@.payload.len(),
            r == self@.total_length - BLOCK_HEADER_LEN,
    {
        proof {
            use_type_invariant(self);
        }
        self.block.get_data_raw().len()
    }

    /// The block.
    pub fn get_block(&self) -> (b: &Block)
        ensures
            b.block_type == self@.kind,
            b.data@ == self@.payload,
    {
        &self.block
    }

    /// The block, without its place.
    pub fn take_block(self) -> (b: Block)
        ensures
            b.block_type == self@.kind,
            b.data@ == self@.payload,
    {
        self.block
    }

    /// The block `block`, found at `start_position` with `size` bytes in
    /// all.
    pub fn from_offset_and_block(start_position: usize, size: usize, block: Block) -> (info:
        BlockInfo)
        requires
            size == block.data@.len() + BLOCK_HEADER_LEN,
            start_position + size <= usize::MAX,
        ensures
            info@ == (FramedBlock {
                kind: block.block_type,
                start_offset: start_position as int,
                total_length: size as int,
                payload: block.data@,
            }),
    {
        BlockInfo { start_position, block, size }
    }
}

} // verus!
