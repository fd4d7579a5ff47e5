//! The geometry block: the width of each variable.

use vstd::prelude::*;
use crate::block_parsers::decompress::{spec_inflate, zlib_decompress};
use crate::block_parsers::{Block, BlockView, DEFAULT_MAX_SIZE};
use crate::data_types::varint::{
    VarInt,
    lemma_varints_count,
    parse_varints_exact,
    spec_varints,
    spec_varints_exact,
};
use crate::error::{
    Frames,
    FstFileParseErrorKind,
    PositionError,
    fail,
    in_expanded,
    shifted,
};
use crate::primitives::{be_u64_as_usize_at, rest_of, spec_be_u64_as_usize};

verus! {

/// The offset of the data in the payload, behind the two length fields.
pub const GEOMETRY_DATA_OFFSET: usize = 16;

/// A geometry block, with what it decodes to once that has been asked for.
#[derive(Debug)]
pub struct GeometryBlock {
    block: Block,
    decoded: Option<Result<Geometry, PositionError>>,
}

impl View for GeometryBlock {
    type V = BlockView;

    closed spec fn view(&self) -> BlockView {
        self.block@
    }
}

/// The executable result `r` is the outcome `o`.
pub open spec fn geometry_agrees(r: Result<Geometry, PositionError>, o: Result<
    Seq<VarInt>,
    Frames,
>) -> bool {
    match (r, o) {
        (Ok(g), Ok(widths)) => g@ == widths,
        (Err(e), Err(f)) => e@ == f,
        _ => false,
    }
}

/// The widths of the variables, in their order.
#[derive(Debug, Clone)]
pub struct Geometry(pub Vec<VarInt>);

impl View for Geometry {
    type V = Seq<VarInt>;

    open spec fn view(&self) -> Seq<VarInt> {
        self.0@
    }
}

/// The widths that the data of a geometry block hold: `count` numbers and
/// nothing more.  The offsets of an error in stored data are counted from the
/// start of the payload; those of an error in expanded data from the start of
/// these, and the error is marked as one of expanded data.
pub open spec fn spec_widths(data: Seq<u8>, count: nat, expanded: bool) -> Result<
    Seq<VarInt>,
    Frames,
> {
    match spec_varints_exact(data, count) {
        Ok(widths) => Ok(widths),
        Err(f) => Err(
            (if expanded {
                in_expanded(f, GEOMETRY_DATA_OFFSET as int)
            } else {
                shifted(f, GEOMETRY_DATA_OFFSET as int)
            }).push((GEOMETRY_DATA_OFFSET, FstFileParseErrorKind::Context("inner data"))),
        ),
    }
}

/// The geometry that the payload `s` holds: the declared length of the
/// data, the number of widths, and the data, which are a zlib stream unless
/// they have the declared length.
pub open spec fn spec_geometry(s: Seq<u8>, max_size: usize) -> Result<Seq<VarInt>, Frames> {
    match spec_be_u64_as_usize(s, 0) {
        Err(f) => Err(f),
        Ok((_, declared)) => match spec_be_u64_as_usize(s, 8) {
            Err(f) => Err(f),
            Ok((_, count)) => {
                let raw = s.skip(GEOMETRY_DATA_OFFSET as int);
                if raw.len() == declared {
                    spec_widths(raw, count as nat, false)
                } else {
                    match spec_inflate(raw, max_size) {
                        Err(reason) => Err(
                            fail(
                                GEOMETRY_DATA_OFFSET as int,
                                FstFileParseErrorKind::DecompressError(reason),
                            ),
                        ),
                        Ok(data) => spec_widths(data, count as nat, true),
                    }
                }
            },
        },
    }
}

/// Data that decode give exactly `count` widths; and data in which `count`
/// numbers are followed by more bytes do not decode: the error is
/// `TrailingBytes`.
pub proof fn lemma_widths_exact(data: Seq<u8>, count: nat, expanded: bool)
    ensures
        spec_widths(data, count, expanded) is Ok ==> spec_widths(data, count, expanded)->Ok_0.len()
            == count,
        match spec_varints(data, 0, count) {
            Ok((end, _)) => end < data.len() ==> spec_widths(data, count, expanded) is Err
                && spec_widths(data, count, expanded)->Err_0[0].1
                == FstFileParseErrorKind::TrailingBytes,
            Err(_) => true,
        },
{
    if spec_varints(data, 0, count) is Ok {
        lemma_varints_count(data, 0, count);
    }
}

impl Geometry {
    /// Reads `count` widths from the data of a geometry block.  `expanded`
    /// says whether the data were expanded from a stream or stand in the
    /// payload as they are.
    pub fn from_data(data: &[u8], count: usize, expanded: bool) -> (r: Result<
        Geometry,
        PositionError,
    >)
        ensures
            geometry_agrees(r, spec_widths(data@, count as nat, expanded)),
            r is Ok ==> r->Ok_0@.len() == count,
    {
        match parse_varints_exact(data, count) {
            Ok(widths) => Ok(Geometry(widths)),
            Err(e) => {
                let placed = if expanded {
                    e.expanded(GEOMETRY_DATA_OFFSET)
                } else {
                    e.shifted(GEOMETRY_DATA_OFFSET)
                };
                Err(placed.context(GEOMETRY_DATA_OFFSET, "inner data"))
            },
        }
    }

    /// Decodes the payload of a geometry block, letting compressed data
    /// expand to at most `max_size` bytes.  On success there are as many
    /// widths as the payload counts.
    pub fn parse(input: &[u8], max_size: usize) -> (r: Result<Geometry, PositionError>)
        ensures
            geometry_agrees(r, spec_geometry(input@, max_size)),
            r is Ok ==> spec_be_u64_as_usize(input@, 8) is Ok && r->Ok_0@.len()
                == spec_be_u64_as_usize(input@, 8)->Ok_0.1,
    {
        let (at, declared) = match be_u64_as_usize_at(input, 0) {
            Ok(got) => got,
            Err(e) => {
                return Err(e);
            },
        };
        let (at, count) = match be_u64_as_usize_at(input, at) {
            Ok(got) => got,
            Err(e) => {
                return Err(e);
            },
        };
        let raw: &[u8] = rest_of(input, at);
        if raw.len() == declared {
            Geometry::from_data(raw, count, false)
        } else {
            match zlib_decompress(raw, max_size) {
                Err(reason) => Err(
                    PositionError::new(
                        GEOMETRY_DATA_OFFSET,
                        FstFileParseErrorKind::DecompressError(reason),
                    ),
                ),
                Ok(data) => Geometry::from_data(data.as_slice(), count, true),
            }
        }
    }
}

impl GeometryBlock {
    /// What is kept is what the block decodes to.
    #[verifier::type_invariant]
    closed spec fn coherent(self) -> bool {
        match self.decoded {
            None => true,
            Some(r) => geometry_agrees(r, spec_geometry(self.block.data@, DEFAULT_MAX_SIZE)),
        }
    }

    /// Takes a framed block as a geometry block.
    pub fn from_block(block: Block) -> (b: GeometryBlock)
        ensures
            b@ == block@,
    {
        GeometryBlock { block, decoded: None }
    }

    /// The framed block.
    pub fn block(&self) -> (b: &Block)
        ensures
            b@ == self@,
    {
        &self.block
    }

    /// Decodes the block; compressed data may expand to `max_size` bytes.
    pub fn get_content_with_limit(&self, max_size: usize) -> (r: Result<Geometry, PositionError>)
        ensures
            geometry_agrees(r, spec_geometry(self@.payload, max_size)),
    {
        Geometry::parse(self.block.get_data_raw(), max_size)
    }

    /// Decodes the block; compressed data may expand to `DEFAULT_MAX_SIZE`
    /// bytes.
    pub fn get_content(&self) -> (r: Result<Geometry, PositionError>)
        ensures
            geometry_agrees(r, spec_geometry(self@.payload, DEFAULT_MAX_SIZE)),
    {
        self.get_content_with_limit(DEFAULT_MAX_SIZE)
    }

    /// What the block decodes to, with compressed data expanding to at most
    /// `DEFAULT_MAX_SIZE` bytes.  It is decoded when this is first asked for,
    /// and the result is kept.
    pub fn decoded(&mut self) -> (r: Result<&Geometry, &PositionError>)
        ensures
            match (r, spec_geometry(old(self)@.payload, DEFAULT_MAX_SIZE)) {
                (Ok(g), Ok(widths)) => g@ == widths,
                (Err(e), Err(f)) => e@ == f,
                _ => false,
            },
            final(self)@ == old(self)@,
    {
        proof {
            use_type_invariant(&*self);
        }
        if self.decoded.is_none() {
            let fresh = self.get_content();
            self.decoded = Some(fresh);
        }
        match &self.decoded {
            Some(Ok(content)) => Ok(content),
            Some(Err(e)) => Err(e),
            None => vstd::pervasive::unreached(),
        }
    }
}

} // verus!
