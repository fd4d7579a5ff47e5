//! The kinds of attribute in a hierarchy.
use vstd::prelude::*;
use crate::error::{FstFileParseErrorKind, PositionError, fail};
use crate::primitives::{Outcome, agrees, spec_u8, u8_at};

verus! {

/// The kind of an attribute.
#[derive(Debug, Clone, Copy, PartialEq, Eq)]
pub enum AttributeType {
    Misc,
    Array,
    Enum,
    Pack,
}

impl AttributeType {
    /// The byte that stands for the value.
    pub open spec fn code(self) -> u8 {
        match self {
            AttributeType::Misc => 0,
            AttributeType::Array => 1,
            AttributeType::Enum => 2,
            AttributeType::Pack => 3,
        }
    }

    /// The value that a byte stands for, if any.
    pub open spec fn from_code(b: u8) -> Option<AttributeType> {
        if b == 0 {
            Some(AttributeType::Misc)
        } else if b == 1 {
            Some(AttributeType::Array)
        } else if b == 2 {
            Some(AttributeType::Enum)
        } else if b == 3 {
            Some(AttributeType::Pack)
        } else {
            None
        }
    }

    /// The byte that stands for the value.
    pub fn as_u8(&self) -> (b: u8)
        ensures
            b == self.code(),
    {
        match self {
            AttributeType::Misc => 0,
            AttributeType::Array => 1,
            AttributeType::Enum => 2,
            AttributeType::Pack => 3,
        }
    }

    /// The value that `b` stands for; `None` where it stands for none.
    pub fn from_u8(b: u8) -> (r: Option<AttributeType>)
        ensures
            r == Self::from_code(b),
    {
        match b {
            0 => Some(AttributeType::Misc),
            1 => Some(AttributeType::Array),
            2 => Some(AttributeType::Enum),
            3 => Some(AttributeType::Pack),
            _ => None,
        }
    }

    /// The value whose byte stands at `pos`.
    pub open spec fn spec_parse_at(s: Seq<u8>, pos: int) -> Outcome<AttributeType> {
        match spec_u8(s, pos) {
            Err(f) => Err(f),
            Ok((next, b)) => match Self::from_code(b) {
                Some(t) => Ok((next, t)),
                None => Err(fail(pos, FstFileParseErrorKind::UnknownAttrType(b))),
            },
        }
    }

    /// Reads the value at `pos`.
    pub fn parse_at(data: &[u8], pos: usize) -> (r: Result<(usize, AttributeType), PositionError>)
        ensures
            agrees(r, Self::spec_parse_at(data@, pos as int)),
    {
        match u8_at(data, pos) {
            Err(e) => Err(e),
            Ok((next, b)) => match Self::from_u8(b) {
                Some(t) => Ok((next, t)),
                None => Err(PositionError::new(pos, FstFileParseErrorKind::UnknownAttrType(b))),
            },
        }
    }
}

/// `from_code` and `code` are inverse to each other.
pub proof fn lemma_attribute_type_code_round_trip(t: AttributeType, b: u8)
    ensures
        AttributeType::from_code(t.code()) == Some(t),
        AttributeType::from_code(b) == Some(t) ==> t.code() == b,
{
}

} // verus!
