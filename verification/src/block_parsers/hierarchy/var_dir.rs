//! The direction of a signal.
use vstd::prelude::*;
use crate::error::{FstFileParseErrorKind, PositionError, fail};
use crate::primitives::{Outcome, agrees, spec_u8, u8_at};

verus! {

/// Signal direction.
#[derive(Debug, Clone, Copy, PartialEq, Eq)]
pub enum VarDir {
    Implicit,
    Input,
    Output,
    Inout,
    Buffer,
    Linkage,
}

impl VarDir {
    /// The byte that stands for the value.
    pub open spec fn code(self) -> u8 {
        match self {
            VarDir::Implicit => 0,
            VarDir::Input => 1,
            VarDir::Output => 2,
            VarDir::Inout => 3,
            VarDir::Buffer => 4,
            VarDir::Linkage => 5,
        }
    }

    /// The value that a byte stands for, if any.
    pub open spec fn from_code(b: u8) -> Option<VarDir> {
        if b == 0 {
            Some(VarDir::Implicit)
        } else if b == 1 {
            Some(VarDir::Input)
        } else if b == 2 {
            Some(VarDir::Output)
        } else if b == 3 {
            Some(VarDir::Inout)
        } else if b == 4 {
            Some(VarDir::Buffer)
        } else if b == 5 {
            Some(VarDir::Linkage)
        } else {
            None
        }
    }

    /// The byte that stands for the value.
    pub fn as_u8(&self) -> (b: u8)
        ensures
            b == self.code(),
    {
        match self {
            VarDir::Implicit => 0,
            VarDir::Input => 1,
            VarDir::Output => 2,
            VarDir::Inout => 3,
            VarDir::Buffer => 4,
            VarDir::Linkage => 5,
        }
    }

    /// The value that `b` stands for; `None` where it stands for none.
    pub fn from_u8(b: u8) -> (r: Option<VarDir>)
        ensures
            r == Self::from_code(b),
    {
        match b {
            0 => Some(VarDir::Implicit),
            1 => Some(VarDir::Input),
            2 => Some(VarDir::Output),
            3 => Some(VarDir::Inout),
            4 => Some(VarDir::Buffer),
            5 => Some(VarDir::Linkage),
            _ => None,
        }
    }

    /// The value whose byte stands at `pos`.
    pub open spec fn spec_parse_at(s: Seq<u8>, pos: int) -> Outcome<VarDir> {
        match spec_u8(s, pos) {
            Err(f) => Err(f),
            Ok((next, b)) => match Self::from_code(b) {
                Some(t) => Ok((next, t)),
                None => Err(fail(pos, FstFileParseErrorKind::UnknownVarDir(b))),
            },
        }
    }

    /// Reads the value at `pos`.
    pub fn parse_at(data: &[u8], pos: usize) -> (r: Result<(usize, VarDir), PositionError>)
        ensures
            agrees(r, Self::spec_parse_at(data@, pos as int)),
    {
        match u8_at(data, pos) {
            Err(e) => Err(e),
            Ok((next, b)) => match Self::from_u8(b) {
                Some(t) => Ok((next, t)),
                None => Err(PositionError::new(pos, FstFileParseErrorKind::UnknownVarDir(b))),
            },
        }
    }
}

/// `from_code` and `code` are inverse to each other.
pub proof fn lemma_var_dir_code_round_trip(t: VarDir, b: u8)
    ensures
        VarDir::from_code(t.code()) == Some(t),
        VarDir::from_code(b) == Some(t) ==> t.code() == b,
{
}

} // verus!
