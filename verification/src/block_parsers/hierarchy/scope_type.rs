//! The kinds of scope, and the four bytes that mark the tokens that are no
//! variable.
use vstd::prelude::*;
use crate::error::{FstFileParseErrorKind, PositionError, fail};
use crate::primitives::{Outcome, agrees, spec_u8, u8_at};

verus! {

/// The kind of a scope.  The last four values are the bytes that mark the
/// tokens that are no variable.
#[derive(Debug, Clone, Copy, PartialEq, Eq)]
pub enum ScopeType {
    VcdModule,
    VcdTask,
    VcdFunction,
    VcdBegin,
    VcdFork,
    VcdGenerate,
    VcdStruct,
    VcdUnion,
    VcdClass,
    VcdInterface,
    VcdPackage,
    VcdProgram,
    VhdlArchitecture,
    VhdlProcedure,
    VhdlFunction,
    VhdlRecord,
    VhdlProcess,
    VhdlBlock,
    VhdlGorGenerate,
    VhdlIfGenerate,
    VhdlGenerate,
    VhdlPackage,
    /// The byte that opens an attribute.
    GenAttrBegin,
    /// The byte that closes an attribute.
    GenAttrEnd,
    /// The byte that opens a scope.
    VcdScope,
    /// The byte that closes a scope.
    VcdUnScope,
}

impl ScopeType {
    /// The byte that stands for the value.
    pub open spec fn code(self) -> u8 {
        match self {
            ScopeType::VcdModule => 0,
            ScopeType::VcdTask => 1,
            ScopeType::VcdFunction => 2,
            ScopeType::VcdBegin => 3,
            ScopeType::VcdFork => 4,
            ScopeType::VcdGenerate => 5,
            ScopeType::VcdStruct => 6,
            ScopeType::VcdUnion => 7,
            ScopeType::VcdClass => 8,
            ScopeType::VcdInterface => 9,
            ScopeType::VcdPackage => 10,
            ScopeType::VcdProgram => 11,
            ScopeType::VhdlArchitecture => 12,
            ScopeType::VhdlProcedure => 13,
            ScopeType::VhdlFunction => 14,
            ScopeType::VhdlRecord => 15,
            ScopeType::VhdlProcess => 16,
            ScopeType::VhdlBlock => 17,
            ScopeType::VhdlGorGenerate => 18,
            ScopeType::VhdlIfGenerate => 19,
            ScopeType::VhdlGenerate => 20,
            ScopeType::VhdlPackage => 21,
            ScopeType::GenAttrBegin => 252,
            ScopeType::GenAttrEnd => 253,
            ScopeType::VcdScope => 254,
            ScopeType::VcdUnScope => 255,
        }
    }

    /// The value that a byte stands for, if any.
    pub open spec fn from_code(b: u8) -> Option<ScopeType> {
        if b == 0 {
            Some(ScopeType::VcdModule)
        } else if b == 1 {
            Some(ScopeType::VcdTask)
        } else if b == 2 {
            Some(ScopeType::VcdFunction)
        } else if b == 3 {
            Some(ScopeType::VcdBegin)
        } else if b == 4 {
            Some(ScopeType::VcdFork)
        } else if b == 5 {
            Some(ScopeType::VcdGenerate)
        } else if b == 6 {
            Some(ScopeType::VcdStruct)
        } else if b == 7 {
            Some(ScopeType::VcdUnion)
        } else if b == 8 {
            Some(ScopeType::VcdClass)
        } else if b == 9 {
            Some(ScopeType::VcdInterface)
        } else if b == 10 {
            Some(ScopeType::VcdPackage)
        } else if b == 11 {
            Some(ScopeType::VcdProgram)
        } else if b == 12 {
            Some(ScopeType::VhdlArchitecture)
        } else if b == 13 {
            Some(ScopeType::VhdlProcedure)
        } else if b == 14 {
            Some(ScopeType::VhdlFunction)
        } else if b == 15 {
            Some(ScopeType::VhdlRecord)
        } else if b == 16 {
            Some(ScopeType::VhdlProcess)
        } else if b == 17 {
            Some(ScopeType::VhdlBlock)
        } else if b == 18 {
            Some(ScopeType::VhdlGorGenerate)
        } else if b == 19 {
            Some(ScopeType::VhdlIfGenerate)
        } else if b == 20 {
            Some(ScopeType::VhdlGenerate)
        } else if b == 21 {
            Some(ScopeType::VhdlPackage)
        } else if b == 252 {
            Some(ScopeType::GenAttrBegin)
        } else if b == 253 {
            Some(ScopeType::GenAttrEnd)
        } else if b == 254 {
            Some(ScopeType::VcdScope)
        } else if b == 255 {
            Some(ScopeType::VcdUnScope)
        } else {
            None
        }
    }

    /// The byte that stands for the value.
    pub fn as_u8(&self) -> (b: u8)
        ensures
            b == self.code(),
    {
        match self {
            ScopeType::VcdModule => 0,
            ScopeType::VcdTask => 1,
            ScopeType::VcdFunction => 2,
            ScopeType::VcdBegin => 3,
            ScopeType::VcdFork => 4,
            ScopeType::VcdGenerate => 5,
            ScopeType::VcdStruct => 6,
            ScopeType::VcdUnion => 7,
            ScopeType::VcdClass => 8,
            ScopeType::VcdInterface => 9,
            ScopeType::VcdPackage => 10,
            ScopeType::VcdProgram => 11,
            ScopeType::VhdlArchitecture => 12,
            ScopeType::VhdlProcedure => 13,
            ScopeType::VhdlFunction => 14,
            ScopeType::VhdlRecord => 15,
            ScopeType::VhdlProcess => 16,
            ScopeType::VhdlBlock => 17,
            ScopeType::VhdlGorGenerate => 18,
            ScopeType::VhdlIfGenerate => 19,
            ScopeType::VhdlGenerate => 20,
            ScopeType::VhdlPackage => 21,
            ScopeType::GenAttrBegin => 252,
            ScopeType::GenAttrEnd => 253,
            ScopeType::VcdScope => 254,
            ScopeType::VcdUnScope => 255,
        }
    }

    /// The value that `b` stands for; `None` where it stands for none.
    pub fn from_u8(b: u8) -> (r: Option<ScopeType>)
        ensures
            r == Self::from_code(b),
    {
        match b {
            0 => Some(ScopeType::VcdModule),
            1 => Some(ScopeType::VcdTask),
            2 => Some(ScopeType::VcdFunction),
            3 => Some(ScopeType::VcdBegin),
            4 => Some(ScopeType::VcdFork),
            5 => Some(ScopeType::VcdGenerate),
            6 => Some(ScopeType::VcdStruct),
            7 => Some(ScopeType::VcdUnion),
            8 => Some(ScopeType::VcdClass),
            9 => Some(ScopeType::VcdInterface),
            10 => Some(ScopeType::VcdPackage),
            11 => Some(ScopeType::VcdProgram),
            12 => Some(ScopeType::VhdlArchitecture),
            13 => Some(ScopeType::VhdlProcedure),
            14 => Some(ScopeType::VhdlFunction),
            15 => Some(ScopeType::VhdlRecord),
            16 => Some(ScopeType::VhdlProcess),
            17 => Some(ScopeType::VhdlBlock),
            18 => Some(ScopeType::VhdlGorGenerate),
            19 => Some(ScopeType::VhdlIfGenerate),
            20 => Some(ScopeType::VhdlGenerate),
            21 => Some(ScopeType::VhdlPackage),
            252 => Some(ScopeType::GenAttrBegin),
            253 => Some(ScopeType::GenAttrEnd),
            254 => Some(ScopeType::VcdScope),
            255 => Some(ScopeType::VcdUnScope),
            _ => None,
        }
    }

    /// The value whose byte stands at `pos`.
    pub open spec fn spec_parse_at(s: Seq<u8>, pos: int) -> Outcome<ScopeType> {
        match spec_u8(s, pos) {
            Err(f) => Err(f),
            Ok((next, b)) => match Self::from_code(b) {
                Some(t) => Ok((next, t)),
                None => Err(fail(pos, FstFileParseErrorKind::UnknownScopeType(b))),
            },
        }
    }

    /// Reads the value at `pos`.
    pub fn parse_at(data: &[u8], pos: usize) -> (r: Result<(usize, ScopeType), PositionError>)
        ensures
            agrees(r, Self::spec_parse_at(data@, pos as int)),
    {
        match u8_at(data, pos) {
            Err(e) => Err(e),
            Ok((next, b)) => match Self::from_u8(b) {
                Some(t) => Ok((next, t)),
                None => Err(PositionError::new(pos, FstFileParseErrorKind::UnknownScopeType(b))),
            },
        }
    }
}

/// `from_code` and `code` are inverse to each other.
pub proof fn lemma_scope_type_code_round_trip(t: ScopeType, b: u8)
    ensures
        ScopeType::from_code(t.code()) == Some(t),
        ScopeType::from_code(b) == Some(t) ==> t.code() == b,
{
}

} // verus!
