//! The blackout block: the times at which dumping was switched off and on.

use vstd::prelude::*;
use crate::block_parsers::{Block, BlockView};
use crate::data_types::varint::{VarInt, lemma_varint_advances};
use crate::error::{Frames, FstFileParseErrorKind, PositionError, fail};
use crate::primitives::{Outcome, agrees, prepended, spec_u8, u8_at};

verus! {

/// A blackout block, with what it decodes to once that has been asked for.
#[derive(Debug)]
pub struct BlackoutBlock {
    block: Block,
    decoded: Option<Result<BlackoutContent, PositionError>>,
}

impl View for BlackoutBlock {
    type V = BlockView;

    closed spec fn view(&self) -> BlockView {
        self.block@
    }
}

/// The executable result `r` is the outcome `o`.
pub open spec fn blackout_agrees(
    r: Result<BlackoutContent, PositionError>,
    o: Result<Seq<BlackoutRecord>, Frames>,
) -> bool {
    match (r, o) {
        (Ok(c), Ok(records)) => c@ == records,
        (Err(e), Err(f)) => e@ == f,
        _ => false,
    }
}

/// Record of blackout.
#[derive(Debug, Clone, Copy, PartialEq)]
pub struct BlackoutRecord {
    pub active: bool,
    pub time_delta: VarInt,
}

/// Content of blackout block.
#[derive(Debug, Clone, PartialEq)]
pub struct BlackoutContent {
    pub records: Vec<BlackoutRecord>,
}

impl View for BlackoutContent {
    type V = Seq<BlackoutRecord>;

    open spec fn view(&self) -> Seq<BlackoutRecord> {
        self.records@
    }
}

/// The `count` records that stand one after another from `pos` on.
pub open spec fn spec_records(s: Seq<u8>, pos: int, count: nat) -> Outcome<Seq<BlackoutRecord>>
    decreases count,
{
    if count == 0 {
        Ok((pos, Seq::empty()))
    } else {
        match BlackoutRecord::spec_parse_at(s, pos) {
            Err(f) => Err(f),
            Ok((next, record)) => prepended(
                seq![record],
                spec_records(s, next, (count - 1) as nat),
            ),
        }
    }
}

/// The content that the payload `s` holds: a count, that many records, and
/// nothing more.
pub open spec fn spec_blackout(s: Seq<u8>) -> Result<Seq<BlackoutRecord>, Frames> {
    match VarInt::spec_parse_as_usize_at(s, 0) {
        Err(f) => Err(f),
        Ok((next, count)) => match spec_records(s, next, count as nat) {
            Err(f) => Err(f),
            Ok((end, records)) => if end < s.len() {
                Err(fail(end, FstFileParseErrorKind::TrailingBytes))
            } else {
                Ok(records)
            },
        },
    }
}

/// Where `count` records can be read, there are `count` of them.
pub proof fn lemma_records_count(s: Seq<u8>, pos: int, count: nat)
    requires
        spec_records(s, pos, count) is Ok,
    ensures
        spec_records(s, pos, count)->Ok_0.1.len() == count,
    decreases count,
{
    if count > 0 {
        let next = BlackoutRecord::spec_parse_at(s, pos)->Ok_0.0;
        lemma_records_count(s, next, (count - 1) as nat);
    }
}

impl BlackoutRecord {
    /// The record at `pos`: a byte that is 1 where dumping is on, and the
    /// time since the record before.
    pub open spec fn spec_parse_at(s: Seq<u8>, pos: int) -> Outcome<BlackoutRecord> {
        match spec_u8(s, pos) {
            Err(f) => Err(f),
            Ok((next, flag)) => match VarInt::spec_parse_at(s, next) {
                Err(f) => Err(f),
                Ok((end, time_delta)) => Ok((end, BlackoutRecord { active: flag == 1, time_delta })),
            },
        }
    }

    /// Reads the record at `pos`.
    pub fn parse_at(data: &[u8], pos: usize) -> (r: Result<(usize, BlackoutRecord), PositionError>)
        ensures
            agrees(r, Self::spec_parse_at(data@, pos as int)),
            r is Ok ==> pos < r->Ok_0.0 <= data@.len(),
    {
        let (next, flag) = match u8_at(data, pos) {
            Ok(got) => got,
            Err(e) => {
                return Err(e);
            },
        };
        match VarInt::parse_at(data, next) {
            Err(e) => Err(e),
            Ok((end, time_delta)) => {
                proof {
                    lemma_varint_advances(data@, next as int);
                }
                Ok((end, BlackoutRecord { active: flag == 1, time_delta }))
            },
        }
    }
}

impl BlackoutContent {
    /// Decodes the payload of a blackout block.
    pub fn parse(input: &[u8]) -> (r: Result<BlackoutContent, PositionError>)
        ensures
            match (r, spec_blackout(input@)) {
                (Ok(c), Ok(records)) => c@ == records,
                (Err(e), Err(f)) => e@ == f,
                _ => false,
            },
            r is Ok ==> r->Ok_0@.len() == VarInt::spec_parse_at(input@, 0)->Ok_0.1.0,
    {
        let (start, count) = match VarInt::parse_as_usize_at(input, 0) {
            Ok(got) => got,
            Err(e) => {
                return Err(e);
            },
        };
        let mut records: Vec<BlackoutRecord> = Vec::new();
        let mut at: usize = start;
        let mut i: usize = 0;
        while i < count
            invariant
                i <= count,
                VarInt::spec_parse_as_usize_at(input@, 0) == Ok::<(int, usize), Frames>(
                    (start as int, count),
                ),
                spec_records(input@, start as int, count as nat) == prepended(
                    records@,
                    spec_records(input@, at as int, (count - i) as nat),
                ),
            decreases count - i,
        {
            match BlackoutRecord::parse_at(input, at) {
                Err(e) => {
                    return Err(e);
                },
                Ok((next, record)) => {
                    proof {
                        let tail = spec_records(input@, next as int, (count - i - 1) as nat);
                        if let Ok((end, rest)) = tail {
                            assert(records@ + (seq![record] + rest) =~= records@.push(record)
                                + rest);
                        }
                    }
                    records.push(record);
                    at = next;
                    i = i + 1;
                },
            }
        }
        proof {
            assert(records@ + Seq::<BlackoutRecord>::empty() =~= records@);
            lemma_records_count(input@, start as int, count as nat);
        }
        if at < input.len() {
            return Err(PositionError::new(at, FstFileParseErrorKind::TrailingBytes));
        }
        Ok(BlackoutContent { records })
    }
}

impl BlackoutBlock {
    /// What is kept is what the block decodes to.
    #[verifier::type_invariant]
    closed spec fn coherent(self) -> bool {
        match self.decoded {
            None => true,
            Some(r) => blackout_agrees(r, spec_blackout(self.block.data@)),
        }
    }

    /// Takes a framed block as a blackout block.
    pub fn from_block(block: Block) -> (b: BlackoutBlock)
        ensures
            b@ == block@,
    {
        BlackoutBlock { block, decoded: None }
    }

    /// The framed block.
    pub fn block(&self) -> (b: &Block)
        ensures
            b@ == self@,
    {
        &self.block
    }

    /// Decodes the block.
    pub fn get_content(&self) -> (r: Result<BlackoutContent, PositionError>)
        ensures
            blackout_agrees(r, spec_blackout(self@.payload)),
    {
        BlackoutContent::parse(self.block.get_data_raw())
    }

    /// What the block decodes to.  It is decoded when this is first asked
    /// for, and the result is kept.
    pub fn decoded(&mut self) -> (r: Result<&BlackoutContent, &PositionError>)
        ensures
            match (r, spec_blackout(old(self)@.payload)) {
                (Ok(c), Ok(records)) => c@ == records,
                (Err(e), Err(f)) => e@ == f,
                _ => false,
            },
            final(self)@ == old(self)@,
    {
        proof {
            use_type_invariant(&*self);
        }
        if self.decoded.is_none() {
            let fresh = self.get_content();
            self.decoded = Some(fresh);
        }
        match &self.decoded {
            Some(Ok(content)) => Ok(content),
            Some(Err(e)) => Err(e),
            None => vstd::pervasive::unreached(),
        }
    }
}

} // verus!
