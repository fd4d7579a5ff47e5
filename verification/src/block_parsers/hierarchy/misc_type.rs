//! What an attribute of the kind `Misc` holds.
use vstd::prelude::*;
use crate::error::{FstFileParseErrorKind, PositionError, fail};
use crate::primitives::{Outcome, agrees, spec_u8, u8_at};

verus! {

/// What an attribute of the kind `Misc` holds.
#[derive(Debug, Clone, Copy, PartialEq, Eq)]
pub enum MiscType {
    Comment,
    EnvVar,
    SupVar,
    PathName,
    SourceStem,
    SourceIStem,
    ValueList,
    EnumTable,
    Unknown,
}

impl MiscType {
    /// The byte that stands for the value.
    pub open spec fn code(self) -> u8 {
        match self {
            MiscType::Comment => 0,
            MiscType::EnvVar => 1,
            MiscType::SupVar => 2,
            MiscType::PathName => 3,
            MiscType::SourceStem => 4,
            MiscType::SourceIStem => 5,
            MiscType::ValueList => 6,
            MiscType::EnumTable => 7,
            MiscType::Unknown => 8,
        }
    }

    /// The value that a byte stands for, if any.
    pub open spec fn from_code(b: u8) -> Option<MiscType> {
        if b == 0 {
            Some(MiscType::Comment)
        } else if b == 1 {
            Some(MiscType::EnvVar)
        } else if b == 2 {
            Some(MiscType::SupVar)
        } else if b == 3 {
            Some(MiscType::PathName)
        } else if b == 4 {
            Some(MiscType::SourceStem)
        } else if b == 5 {
            Some(MiscType::SourceIStem)
        } else if b == 6 {
            Some(MiscType::ValueList)
        } else if b == 7 {
            Some(MiscType::EnumTable)
        } else if b == 8 {
            Some(MiscType::Unknown)
        } else {
            None
        }
    }

    /// The byte that stands for the value.
    pub fn as_u8(&self) -> (b: u8)
        ensures
            b == self.code(),
    {
        match self {
            MiscType::Comment => 0,
            MiscType::EnvVar => 1,
            MiscType::SupVar => 2,
            MiscType::PathName => 3,
            MiscType::SourceStem => 4,
            MiscType::SourceIStem => 5,
            MiscType::ValueList => 6,
            MiscType::EnumTable => 7,
            MiscType::Unknown => 8,
        }
    }

    /// The value that `b` stands for; `None` where it stands for none.
    pub fn from_u8(b: u8) -> (r: Option<MiscType>)
        ensures
            r == Self::from_code(b),
    {
        match b {
            0 => Some(MiscType::Comment),
            1 => Some(MiscType::EnvVar),
            2 => Some(MiscType::SupVar),
            3 => Some(MiscType::PathName),
            4 => Some(MiscType::SourceStem),
            5 => Some(MiscType::SourceIStem),
            6 => Some(MiscType::ValueList),
            7 => Some(MiscType::EnumTable),
            8 => Some(MiscType::Unknown),
            _ => None,
        }
    }

    /// The value whose byte stands at `pos`.
    pub open spec fn spec_parse_at(s: Seq<u8>, pos: int) -> Outcome<MiscType> {
        match spec_u8(s, pos) {
            Err(f) => Err(f),
            Ok((next, b)) => match Self::from_code(b) {
                Some(t) => Ok((next, t)),
                None => Err(fail(pos, FstFileParseErrorKind::UnknownMiscType(b))),
            },
        }
    }

    /// Reads the value at `pos`.
    pub fn parse_at(data: &[u8], pos: usize) -> (r: Result<(usize, MiscType), PositionError>)
        ensures
            agrees(r, Self::spec_parse_at(data@, pos as int)),
    {
        match u8_at(data, pos) {
            Err(e) => Err(e),
            Ok((next, b)) => match Self::from_u8(b) {
                Some(t) => Ok((next, t)),
                None => Err(PositionError::new(pos, FstFileParseErrorKind::UnknownMiscType(b))),
            },
        }
    }
}

/// `from_code` and `code` are inverse to each other.
pub proof fn lemma_misc_type_code_round_trip(t: MiscType, b: u8)
    ensures
        MiscType::from_code(t.code()) == Some(t),
        MiscType::from_code(b) == Some(t) ==> t.code() == b,
{
}

} // verus!
