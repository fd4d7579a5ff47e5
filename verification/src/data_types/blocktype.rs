//! The kind byte that opens every block.
use vstd::prelude::*;
use crate::error::{FstFileParseErrorKind, PositionError, fail};
use crate::primitives::{Outcome, agrees, rest_of, spec_u8, u8_at};

verus! {

/// The kind of a block.
#[derive(Debug, Clone, Copy, PartialEq, Eq, Hash, PartialOrd, Ord)]
pub enum BlockType {
    /// The file header.
    Header,
    /// Value changes, first encoding.
    ValueChangeData,
    /// Windows in which dumping was off.
    Blackout,
    /// The width of each variable.
    Geometry,
    /// The hierarchy, gzip-compressed.
    HierarchyGz,
    /// Value changes, with aliases.
    ValueChangeDataAlias,
    /// The hierarchy, LZ4-compressed.
    HierarchyLz4,
    /// The hierarchy, LZ4-compressed twice.
    HierarchyLz4Duo,
    /// Value changes, with signed alias marks.
    ValueChangeDataAlias2,
    /// A whole file inside a gzip stream.
    GZippedWrapper,
    /// A block to pass over.
    Skip,
}

impl BlockType {
    /// The byte that stands for the value.
    pub open spec fn code(self) -> u8 {
        match self {
            BlockType::Header => 0,
            BlockType::ValueChangeData => 1,
            BlockType::Blackout => 2,
            BlockType::Geometry => 3,
            BlockType::HierarchyGz => 4,
            BlockType::ValueChangeDataAlias => 5,
            BlockType::HierarchyLz4 => 6,
            BlockType::HierarchyLz4Duo => 7,
            BlockType::ValueChangeDataAlias2 => 8,
            BlockType::GZippedWrapper => 254,
            BlockType::Skip => 255,
        }
    }

    /// The value that a byte stands for, if any.
    pub open spec fn from_code(b: u8) -> Option<BlockType> {
        if b == 0 {
            Some(BlockType::Header)
        } else if b == 1 {
            Some(BlockType::ValueChangeData)
        } else if b == 2 {
            Some(BlockType::Blackout)
        } else if b == 3 {
            Some(BlockType::Geometry)
        } else if b == 4 {
            Some(BlockType::HierarchyGz)
        } else if b == 5 {
            Some(BlockType::ValueChangeDataAlias)
        } else if b == 6 {
            Some(BlockType::HierarchyLz4)
        } else if b == 7 {
            Some(BlockType::HierarchyLz4Duo)
        } else if b == 8 {
            Some(BlockType::ValueChangeDataAlias2)
        } else if b == 254 {
            Some(BlockType::GZippedWrapper)
        } else if b == 255 {
            Some(BlockType::Skip)
        } else {
            None
        }
    }

    /// The byte that stands for the value.
    pub fn as_u8(&self) -> (b: u8)
        ensures
            b == self.code(),
    {
        match self {
            BlockType::Header => 0,
            BlockType::ValueChangeData => 1,
            BlockType::Blackout => 2,
            BlockType::Geometry => 3,
            BlockType::HierarchyGz => 4,
            BlockType::ValueChangeDataAlias => 5,
            BlockType::HierarchyLz4 => 6,
            BlockType::HierarchyLz4Duo => 7,
            BlockType::ValueChangeDataAlias2 => 8,
            BlockType::GZippedWrapper => 254,
            BlockType::Skip => 255,
        }
    }

    /// The value that `b` stands for; `None` where it stands for none.
    pub fn from_u8(b: u8) -> (r: Option<BlockType>)
        ensures
            r == Self::from_code(b),
    {
        match b {
            0 => Some(BlockType::Header),
            1 => Some(BlockType::ValueChangeData),
            2 => Some(BlockType::Blackout),
            3 => Some(BlockType::Geometry),
            4 => Some(BlockType::HierarchyGz),
            5 => Some(BlockType::ValueChangeDataAlias),
            6 => Some(BlockType::HierarchyLz4),
            7 => Some(BlockType::HierarchyLz4Duo),
            8 => Some(BlockType::ValueChangeDataAlias2),
            254 => Some(BlockType::GZippedWrapper),
            255 => Some(BlockType::Skip),
            _ => None,
        }
    }

    /// The value whose byte stands at `pos`.
    pub open spec fn spec_parse_at(s: Seq<u8>, pos: int) -> Outcome<BlockType> {
        match spec_u8(s, pos) {
            Err(f) => Err(f.push((pos as usize, FstFileParseErrorKind::Context("block type")))),
            Ok((next, b)) => match Self::from_code(b) {
                Some(t) => Ok((next, t)),
                None => Err(fail(pos, FstFileParseErrorKind::UnknownBlockKind(b)).push((pos as usize, FstFileParseErrorKind::Context("block type")))),
            },
        }
    }

    /// Reads the value at `pos`.
    pub fn parse_at(data: &[u8], pos: usize) -> (r: Result<(usize, BlockType), PositionError>)
        ensures
            agrees(r, Self::spec_parse_at(data@, pos as int)),
    {
        match u8_at(data, pos) {
            Err(e) => Err(e.context(pos, "block type")),
            Ok((next, b)) => match Self::from_u8(b) {
                Some(t) => Ok((next, t)),
                None => Err(PositionError::new(pos, FstFileParseErrorKind::UnknownBlockKind(b)).context(pos, "block type")),
            },
        }
    }

    /// Reads the value at the start of `input`, and gives what follows it.
    pub fn parse(input: &[u8]) -> (r: Result<(&[u8], BlockType), PositionError>)
        ensures
            match (r, Self::spec_parse_at(input@, 0)) {
                (Ok((rest, value)), Ok((next, v))) => rest@ == input@.skip(next) && value == v,
                (Err(e), Err(f)) => e@ == f,
                _ => false,
            },
    {
        match Self::parse_at(input, 0) {
            Ok((next, value)) => Ok((rest_of(input, next), value)),
            Err(e) => Err(e),
        }
    }

    /// The words that a listing shows for the kind.
    pub open spec fn spec_description(self) -> &'static str {
        match self {
            BlockType::Header => "Header",
            BlockType::ValueChangeData => "Value Change Data (Gzip)",
            BlockType::Blackout => "Blackout",
            BlockType::Geometry => "Geometry",
            BlockType::HierarchyGz => "Hierarchy (Gzip)",
            BlockType::ValueChangeDataAlias => "Value Change Data (alias)",
            BlockType::HierarchyLz4 => "Hierarchy (Lz4)",
            BlockType::HierarchyLz4Duo => "Hierarchy (Lz4 x2)",
            BlockType::ValueChangeDataAlias2 => "Value Change Data (alias 2)",
            BlockType::GZippedWrapper => "Gzipped FST File",
            BlockType::Skip => "Skip",
        }
    }

    /// The words that a listing shows for the kind.
    pub fn description(&self) -> (text: &'static str)
        ensures
            text == self.spec_description(),
    {
        match self {
            BlockType::Header => "Header",
            BlockType::ValueChangeData => "Value Change Data (Gzip)",
            BlockType::Blackout => "Blackout",
            BlockType::Geometry => "Geometry",
            BlockType::HierarchyGz => "Hierarchy (Gzip)",
            BlockType::ValueChangeDataAlias => "Value Change Data (alias)",
            BlockType::HierarchyLz4 => "Hierarchy (Lz4)",
            BlockType::HierarchyLz4Duo => "Hierarchy (Lz4 x2)",
            BlockType::ValueChangeDataAlias2 => "Value Change Data (alias 2)",
            BlockType::GZippedWrapper => "Gzipped FST File",
            BlockType::Skip => "Skip",
        }
    }

    /// The kind is one of the three that hold a hierarchy.
    pub open spec fn spec_is_hierarchy(self) -> bool {
        self == BlockType::HierarchyGz || self == BlockType::HierarchyLz4 || self
            == BlockType::HierarchyLz4Duo
    }

    /// The kind is one of the three that hold value changes.
    pub open spec fn spec_is_value_change_data(self) -> bool {
        self == BlockType::ValueChangeData || self == BlockType::ValueChangeDataAlias || self
            == BlockType::ValueChangeDataAlias2
    }

    /// Whether the kind is one of the three that hold a hierarchy.
    pub fn is_hierarchy(&self) -> (b: bool)
        ensures
            b == self.spec_is_hierarchy(),
    {
        match self {
            BlockType::HierarchyGz | BlockType::HierarchyLz4 | BlockType::HierarchyLz4Duo => true,
            _ => false,
        }
    }

    /// Whether the kind is one of the three that hold value changes.
    pub fn is_value_change_data(&self) -> (b: bool)
        ensures
            b == self.spec_is_value_change_data(),
    {
        match self {
            BlockType::ValueChangeData
            | BlockType::ValueChangeDataAlias
            | BlockType::ValueChangeDataAlias2 => true,
            _ => false,
        }
    }
}

/// `from_code` and `code` are inverse to each other.
pub proof fn lemma_block_type_code_round_trip(t: BlockType, b: u8)
    ensures
        BlockType::from_code(t.code()) == Some(t),
        BlockType::from_code(b) == Some(t) ==> t.code() == b,
{
}

} // verus!
