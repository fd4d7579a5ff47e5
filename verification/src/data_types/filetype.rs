//! The language of the design that a file was written from.
use vstd::prelude::*;
use crate::error::{FstFileParseErrorKind, PositionError, fail};
use crate::primitives::{Outcome, agrees, spec_u8, u8_at};

verus! {

/// The language of the design.
#[derive(Debug, Clone, Copy, PartialEq, Eq)]
pub enum FileType {
    Verilog,
    Vhdl,
    VerilogVhdl,
}

impl FileType {
    /// The byte that stands for the value.
    pub open spec fn code(self) -> u8 {
        match self {
            FileType::Verilog => 0,
            FileType::Vhdl => 1,
            FileType::VerilogVhdl => 2,
        }
    }

    /// The value that a byte stands for, if any.
    pub open spec fn from_code(b: u8) -> Option<FileType> {
        if b == 0 {
            Some(FileType::Verilog)
        } else if b == 1 {
            Some(FileType::Vhdl)
        } else if b == 2 {
            Some(FileType::VerilogVhdl)
        } else {
            None
        }
    }

    /// The byte that stands for the value.
    pub fn as_u8(&self) -> (b: u8)
        ensures
            b == self.code(),
    {
        match self {
            FileType::Verilog => 0,
            FileType::Vhdl => 1,
            FileType::VerilogVhdl => 2,
        }
    }

    /// The value that `b` stands for; `None` where it stands for none.
    pub fn from_u8(b: u8) -> (r: Option<FileType>)
        ensures
            r == Self::from_code(b),
    {
        match b {
            0 => Some(FileType::Verilog),
            1 => Some(FileType::Vhdl),
            2 => Some(FileType::VerilogVhdl),
            _ => None,
        }
    }

    /// The value whose byte stands at `pos`.
    pub open spec fn spec_parse_at(s: Seq<u8>, pos: int) -> Outcome<FileType> {
        match spec_u8(s, pos) {
            Err(f) => Err(f.push((pos as usize, FstFileParseErrorKind::Context("parse file type")))),
            Ok((next, b)) => match Self::from_code(b) {
                Some(t) => Ok((next, t)),
                None => Err(fail(pos, FstFileParseErrorKind::UnknownFileKind(b)).push((pos as usize, FstFileParseErrorKind::Context("parse file type")))),
            },
        }
    }

    /// Reads the value at `pos`.
    pub fn parse_at(data: &[u8], pos: usize) -> (r: Result<(usize, FileType), PositionError>)
        ensures
            agrees(r, Self::spec_parse_at(data@, pos as int)),
    {
        match u8_at(data, pos) {
            Err(e) => Err(e.context(pos, "parse file type")),
            Ok((next, b)) => match Self::from_u8(b) {
                Some(t) => Ok((next, t)),
                None => Err(PositionError::new(pos, FstFileParseErrorKind::UnknownFileKind(b)).context(pos, "parse file type")),
            },
        }
    }
}

/// `from_code` and `code` are inverse to each other.
pub proof fn lemma_file_type_code_round_trip(t: FileType, b: u8)
    ensures
        FileType::from_code(t.code()) == Some(t),
        FileType::from_code(b) == Some(t) ==> t.code() == b,
{
}

} // verus!
