//! How the waves region of a value-change block is packed.

use vstd::prelude::*;
use crate::error::{FstFileParseErrorKind, PositionError, fail};
use crate::primitives::{Outcome, agrees, spec_u8, u8_at};

verus! {

/// The packing of a waves region.
#[derive(Debug, Clone, Copy, PartialEq, Eq)]
pub enum WriterPackType {
    Zlib,
    FaslLz,
    Lz4,
}

impl WriterPackType {
    /// The packing that a byte names: `!` and `Z` zlib, `F` FastLZ, `4` LZ4.
    pub open spec fn from_code(b: u8) -> Option<WriterPackType> {
        if b == 0x21 || b == 0x5A {
            Some(WriterPackType::Zlib)
        } else if b == 0x46 {
            Some(WriterPackType::FaslLz)
        } else if b == 0x34 {
            Some(WriterPackType::Lz4)
        } else {
            None
        }
    }

    /// The packing whose byte stands at `pos`.
    pub open spec fn spec_parse_at(s: Seq<u8>, pos: int) -> Outcome<WriterPackType> {
        match spec_u8(s, pos) {
            Err(f) => Err(f.push((pos as usize, FstFileParseErrorKind::Context("writer pack")))),
            Ok((next, b)) => match Self::from_code(b) {
                Some(t) => Ok((next, t)),
                None => Err(
                    fail(pos, FstFileParseErrorKind::UnknownWriterPack(b)).push(
                        (pos as usize, FstFileParseErrorKind::Context("writer pack")),
                    ),
                ),
            },
        }
    }

    /// Reads the packing at `pos`.
    pub fn parse_at(data: &[u8], pos: usize) -> (r: Result<(usize, WriterPackType), PositionError>)
        ensures
            agrees(r, Self::spec_parse_at(data@, pos as int)),
    {
        match u8_at(data, pos) {
            Err(e) => Err(e.context(pos, "writer pack")),
            Ok((next, b)) => {
                if b == 0x21 || b == 0x5A {
                    Ok((next, WriterPackType::Zlib))
                } else if b == 0x46 {
                    Ok((next, WriterPackType::FaslLz))
                } else if b == 0x34 {
                    Ok((next, WriterPackType::Lz4))
                } else {
                    Err(
                        PositionError::new(pos, FstFileParseErrorKind::UnknownWriterPack(b)).context(
                            pos,
                            "writer pack",
                        ),
                    )
                }
            },
        }
    }
}

} // verus!
