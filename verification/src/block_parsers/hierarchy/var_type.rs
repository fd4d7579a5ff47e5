//! The kinds of variable.
use vstd::prelude::*;
use crate::error::{FstFileParseErrorKind, PositionError, fail};
use crate::primitives::{Outcome, agrees, spec_u8, u8_at};

verus! {

/// The kind of a variable.
#[derive(Debug, Clone, Copy, PartialEq, Eq)]
pub enum VarType {
    VcdEvent,
    VcdInteger,
    VcdParameter,
    VcdReal,
    VcdRealParameter,
    VcdReg,
    VcdSupply0,
    VcdSupply1,
    VcdTime,
    VcdTri,
    VcdTriAnd,
    VcdTriOr,
    VcdTriReg,
    VcdTri0,
    VcdTri1,
    VcdWand,
    VcdWire,
    VcdWor,
    VcdPort,
    VcdSparray,
    VcdRealtime,
    GenString,
    SvBit,
    SvLogic,
    SvInt,
    SvShortInt,
    SvLongInt,
    SvByte,
    SvEnum,
    SvShortReal,
}

impl VarType {
    /// The byte that stands for the value.
    pub open spec fn code(self) -> u8 {
        match self {
            VarType::VcdEvent => 0,
            VarType::VcdInteger => 1,
            VarType::VcdParameter => 2,
            VarType::VcdReal => 3,
            VarType::VcdRealParameter => 4,
            VarType::VcdReg => 5,
            VarType::VcdSupply0 => 6,
            VarType::VcdSupply1 => 7,
            VarType::VcdTime => 8,
            VarType::VcdTri => 9,
            VarType::VcdTriAnd => 10,
            VarType::VcdTriOr => 11,
            VarType::VcdTriReg => 12,
            VarType::VcdTri0 => 13,
            VarType::VcdTri1 => 14,
            VarType::VcdWand => 15,
            VarType::VcdWire => 16,
            VarType::VcdWor => 17,
            VarType::VcdPort => 18,
            VarType::VcdSparray => 19,
            VarType::VcdRealtime => 20,
            VarType::GenString => 21,
            VarType::SvBit => 22,
            VarType::SvLogic => 23,
            VarType::SvInt => 24,
            VarType::SvShortInt => 25,
            VarType::SvLongInt => 26,
            VarType::SvByte => 27,
            VarType::SvEnum => 28,
            VarType::SvShortReal => 29,
        }
    }

    /// The value that a byte stands for, if any.
    pub open spec fn from_code(b: u8) -> Option<VarType> {
        if b == 0 {
            Some(VarType::VcdEvent)
        } else if b == 1 {
            Some(VarType::VcdInteger)
        } else if b == 2 {
            Some(VarType::VcdParameter)
        } else if b == 3 {
            Some(VarType::VcdReal)
        } else if b == 4 {
            Some(VarType::VcdRealParameter)
        } else if b == 5 {
            Some(VarType::VcdReg)
        } else if b == 6 {
            Some(VarType::VcdSupply0)
        } else if b == 7 {
            Some(VarType::VcdSupply1)
        } else if b == 8 {
            Some(VarType::VcdTime)
        } else if b == 9 {
            Some(VarType::VcdTri)
        } else if b == 10 {
            Some(VarType::VcdTriAnd)
        } else if b == 11 {
            Some(VarType::VcdTriOr)
        } else if b == 12 {
            Some(VarType::VcdTriReg)
        } else if b == 13 {
            Some(VarType::VcdTri0)
        } else if b == 14 {
            Some(VarType::VcdTri1)
        } else if b == 15 {
            Some(VarType::VcdWand)
        } else if b == 16 {
            Some(VarType::VcdWire)
        } else if b == 17 {
            Some(VarType::VcdWor)
        } else if b == 18 {
            Some(VarType::VcdPort)
        } else if b == 19 {
            Some(VarType::VcdSparray)
        } else if b == 20 {
            Some(VarType::VcdRealtime)
        } else if b == 21 {
            Some(VarType::GenString)
        } else if b == 22 {
            Some(VarType::SvBit)
        } else if b == 23 {
            Some(VarType::SvLogic)
        } else if b == 24 {
            Some(VarType::SvInt)
        } else if b == 25 {
            Some(VarType::SvShortInt)
        } else if b == 26 {
            Some(VarType::SvLongInt)
        } else if b == 27 {
            Some(VarType::SvByte)
        } else if b == 28 {
            Some(VarType::SvEnum)
        } else if b == 29 {
            Some(VarType::SvShortReal)
        } else {
            None
        }
    }

    /// The byte that stands for the value.
    pub fn as_u8(&self) -> (b: u8)
        ensures
            b == self.code(),
    {
        match self {
            VarType::VcdEvent => 0,
            VarType::VcdInteger => 1,
            VarType::VcdParameter => 2,
            VarType::VcdReal => 3,
            VarType::VcdRealParameter => 4,
            VarType::VcdReg => 5,
            VarType::VcdSupply0 => 6,
            VarType::VcdSupply1 => 7,
            VarType::VcdTime => 8,
            VarType::VcdTri => 9,
            VarType::VcdTriAnd => 10,
            VarType::VcdTriOr => 11,
            VarType::VcdTriReg => 12,
            VarType::VcdTri0 => 13,
            VarType::VcdTri1 => 14,
            VarType::VcdWand => 15,
            VarType::VcdWire => 16,
            VarType::VcdWor => 17,
            VarType::VcdPort => 18,
            VarType::VcdSparray => 19,
            VarType::VcdRealtime => 20,
            VarType::GenString => 21,
            VarType::SvBit => 22,
            VarType::SvLogic => 23,
            VarType::SvInt => 24,
            VarType::SvShortInt => 25,
            VarType::SvLongInt => 26,
            VarType::SvByte => 27,
            VarType::SvEnum => 28,
            VarType::SvShortReal => 29,
        }
    }

    /// The value that `b` stands for; `None` where it stands for none.
    pub fn from_u8(b: u8) -> (r: Option<VarType>)
        ensures
            r == Self::from_code(b),
    {
        match b {
            0 => Some(VarType::VcdEvent),
            1 => Some(VarType::VcdInteger),
            2 => Some(VarType::VcdParameter),
            3 => Some(VarType::VcdReal),
            4 => Some(VarType::VcdRealParameter),
            5 => Some(VarType::VcdReg),
            6 => Some(VarType::VcdSupply0),
            7 => Some(VarType::VcdSupply1),
            8 => Some(VarType::VcdTime),
            9 => Some(VarType::VcdTri),
            10 => Some(VarType::VcdTriAnd),
            11 => Some(VarType::VcdTriOr),
            12 => Some(VarType::VcdTriReg),
            13 => Some(VarType::VcdTri0),
            14 => Some(VarType::VcdTri1),
            15 => Some(VarType::VcdWand),
            16 => Some(VarType::VcdWire),
            17 => Some(VarType::VcdWor),
            18 => Some(VarType::VcdPort),
            19 => Some(VarType::VcdSparray),
            20 => Some(VarType::VcdRealtime),
            21 => Some(VarType::GenString),
            22 => Some(VarType::SvBit),
            23 => Some(VarType::SvLogic),
            24 => Some(VarType::SvInt),
            25 => Some(VarType::SvShortInt),
            26 => Some(VarType::SvLongInt),
            27 => Some(VarType::SvByte),
            28 => Some(VarType::SvEnum),
            29 => Some(VarType::SvShortReal),
            _ => None,
        }
    }

    /// The value whose byte stands at `pos`.
    pub open spec fn spec_parse_at(s: Seq<u8>, pos: int) -> Outcome<VarType> {
        match spec_u8(s, pos) {
            Err(f) => Err(f),
            Ok((next, b)) => match Self::from_code(b) {
                Some(t) => Ok((next, t)),
                None => Err(fail(pos, FstFileParseErrorKind::UnknownVarType(b))),
            },
        }
    }

    /// Reads the value at `pos`.
    pub fn parse_at(data: &[u8], pos: usize) -> (r: Result<(usize, VarType), PositionError>)
        ensures
            agrees(r, Self::spec_parse_at(data@, pos as int)),
    {
        match u8_at(data, pos) {
            Err(e) => Err(e),
            Ok((next, b)) => match Self::from_u8(b) {
                Some(t) => Ok((next, t)),
                None => Err(PositionError::new(pos, FstFileParseErrorKind::UnknownVarType(b))),
            },
        }
    }
}

/// `from_code` and `code` are inverse to each other.
pub proof fn lemma_var_type_code_round_trip(t: VarType, b: u8)
    ensures
        VarType::from_code(t.code()) == Some(t),
        VarType::from_code(b) == Some(t) ==> t.code() == b,
{
}

} // verus!
