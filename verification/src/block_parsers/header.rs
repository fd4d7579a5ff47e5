//! The header block: a record of fixed layout.

use vstd::prelude::*;
use crate::block_parsers::{Block, BlockView};
use crate::data_types::filetype::FileType;
use crate::data_types::timescale::TimeScale;
use crate::error::{Frames, FstFileParseErrorKind, PositionError, fail, labelled};
use crate::primitives::{
    as_signed_64,
    as_signed_8,
    be_i64_at,
    be_u64_at,
    be_u64_value,
    fixed_text_at,
    le_u64_at,
    le_u64_value,
    skip_at,
    spec_fixed_text,
    shown,
};

verus! {

/// The bit pattern of Euler's number as a 64-bit float.  A writer stores it
/// in its own byte order; a little-endian reader must find exactly this.
pub const ENDIANNESS_PROBE: u64 = 0x4005_BF0A_8B14_5769;

/// The length of the field that names the writer.
pub const WRITER_LEN: usize = 128;

/// The length of the field that holds the date.
pub const DATE_LEN: usize = 26;

/// The length of the field that is kept for later use.
pub const RESERVED_LEN: usize = 93;

/// The length of the whole record.
pub const HEADER_LEN: usize = 321;

/// What a header block holds.
#[derive(Debug, Clone)]
pub struct HeaderBlockContent {
    pub start_time: u64,
    pub end_time: u64,
    /// The endianness probe, as the bit pattern of a 64-bit float.
    pub real_endianness: u64,
    pub writer_memory_use: u64,
    pub num_scopes: u64,
    pub num_hierarchy_vars: u64,
    pub num_vars: u64,
    pub num_vc_blocks: u64,
    pub timescale: TimeScale,
    pub writer: String,
    pub date: String,
    pub filetype: FileType,
    pub timezero: i64,
}

/// A header, in contracts.
pub struct HeaderView {
    pub start_time: u64,
    pub end_time: u64,
    pub real_endianness: u64,
    pub writer_memory_use: u64,
    pub num_scopes: u64,
    pub num_hierarchy_vars: u64,
    pub num_vars: u64,
    pub num_vc_blocks: u64,
    pub timescale: TimeScale,
    pub writer: Seq<char>,
    pub date: Seq<char>,
    pub filetype: FileType,
    pub timezero: i64,
}

impl View for HeaderBlockContent {
    type V = HeaderView;

    open spec fn view(&self) -> HeaderView {
        HeaderView {
            start_time: self.start_time,
            end_time: self.end_time,
            real_endianness: self.real_endianness,
            writer_memory_use: self.writer_memory_use,
            num_scopes: self.num_scopes,
            num_hierarchy_vars: self.num_hierarchy_vars,
            num_vars: self.num_vars,
            num_vc_blocks: self.num_vc_blocks,
            timescale: self.timescale,
            writer: self.writer@,
            date: self.date@,
            filetype: self.filetype,
            timezero: self.timezero,
        }
    }
}

/// The fields of a record that is long enough and names a known kind of
/// file.
pub open spec fn header_fields(s: Seq<u8>) -> HeaderView {
    HeaderView {
        start_time: be_u64_value(s, 0) as u64,
        end_time: be_u64_value(s, 8) as u64,
        real_endianness: le_u64_value(s, 16) as u64,
        writer_memory_use: be_u64_value(s, 24) as u64,
        num_scopes: be_u64_value(s, 32) as u64,
        num_hierarchy_vars: be_u64_value(s, 40) as u64,
        num_vars: be_u64_value(s, 48) as u64,
        num_vc_blocks: be_u64_value(s, 56) as u64,
        timescale: TimeScale(as_signed_8(s[64] as int) as i8),
        writer: shown(spec_fixed_text(s, 65, WRITER_LEN as nat)->Ok_0.1),
        date: shown(spec_fixed_text(s, 193, DATE_LEN as nat)->Ok_0.1),
        filetype: FileType::from_code(s[312])->Some_0,
        timezero: as_signed_64(be_u64_value(s, 313)) as i64,
    }
}

/// The header that the payload `s` holds.  The fields are read in their
/// order, and the first that the payload is too short for is reported at its
/// own offset; then the kind of file must be known, the probe must be the
/// pattern of e, and nothing may follow the last field.
pub open spec fn spec_header(s: Seq<u8>) -> Result<HeaderView, Frames> {
    let n = s.len();
    if n < 64 {
        Err(fail(n - n % 8, FstFileParseErrorKind::Truncated))
    } else if n < 65 {
        Err(labelled(64, FstFileParseErrorKind::Truncated, "parse time scale"))
    } else if n < 193 {
        Err(fail(65, FstFileParseErrorKind::Truncated))
    } else if n < 219 {
        Err(fail(193, FstFileParseErrorKind::Truncated))
    } else if n < 312 {
        Err(fail(219, FstFileParseErrorKind::Truncated))
    } else if n < 313 {
        Err(labelled(312, FstFileParseErrorKind::Truncated, "parse file type"))
    } else if FileType::from_code(s[312]) is None {
        Err(labelled(312, FstFileParseErrorKind::UnknownFileKind(s[312]), "parse file type"))
    } else if n < 321 {
        Err(fail(313, FstFileParseErrorKind::Truncated))
    } else if le_u64_value(s, 16) != ENDIANNESS_PROBE {
        Err(fail(16, FstFileParseErrorKind::EndiannessMismatch))
    } else if n > 321 {
        Err(fail(321, FstFileParseErrorKind::TrailingBytes))
    } else {
        Ok(header_fields(s))
    }
}

impl HeaderBlockContent {
    /// Decodes the payload of a header block.
    #[verifier::rlimit(40)]
    pub fn parse(input: &[u8]) -> (r: Result<HeaderBlockContent, PositionError>)
        ensures
            match (r, spec_header(input@)) {
                (Ok(h), Ok(v)) => h@ == v,
                (Err(e), Err(f)) => e@ == f,
                _ => false,
            },
    {
        let (at, start_time) = match be_u64_at(input, 0) {
            Ok(got) => got,
            Err(e) => {
                return Err(e);
            },
        };
        let (at, end_time) = match be_u64_at(input, at) {
            Ok(got) => got,
            Err(e) => {
                return Err(e);
            },
        };
        let (at, real_endianness) = match le_u64_at(input, at) {
            Ok(got) => got,
            Err(e) => {
                return Err(e);
            },
        };
        let (at, writer_memory_use) = match be_u64_at(input, at) {
            Ok(got) => got,
            Err(e) => {
                return Err(e);
            },
        };
        let (at, num_scopes) = match be_u64_at(input, at) {
            Ok(got) => got,
            Err(e) => {
                return Err(e);
            },
        };
        let (at, num_hierarchy_vars) = match be_u64_at(input, at) {
            Ok(got) => got,
            Err(e) => {
                return Err(e);
            },
        };
        let (at, num_vars) = match be_u64_at(input, at) {
            Ok(got) => got,
            Err(e) => {
                return Err(e);
            },
        };
        let (at, num_vc_blocks) = match be_u64_at(input, at) {
            Ok(got) => got,
            Err(e) => {
                return Err(e);
            },
        };
        let (at, timescale) = match TimeScale::parse_at(input, at) {
            Ok(got) => got,
            Err(e) => {
                return Err(e);
            },
        };
        let (at, writer) = match fixed_text_at(input, at, WRITER_LEN) {
            Ok(got) => got,
            Err(e) => {
                return Err(e);
            },
        };
        let (at, date) = match fixed_text_at(input, at, DATE_LEN) {
            Ok(got) => got,
            Err(e) => {
                return Err(e);
            },
        };
        let (at, _) = match skip_at(input, at, RESERVED_LEN) {
            Ok(got) => got,
            Err(e) => {
                return Err(e);
            },
        };
        let (at, filetype) = match FileType::parse_at(input, at) {
            Ok(got) => got,
            Err(e) => {
                return Err(e);
            },
        };
        let (at, timezero) = match be_i64_at(input, at) {
            Ok(got) => got,
            Err(e) => {
                return Err(e);
            },
        };
        if real_endianness != ENDIANNESS_PROBE {
            return Err(PositionError::new(16, FstFileParseErrorKind::EndiannessMismatch));
        }
        if at < input.len() {
            return Err(PositionError::new(at, FstFileParseErrorKind::TrailingBytes));
        }
        Ok(
            HeaderBlockContent {
                start_time,
                end_time,
                real_endianness,
                writer_memory_use,
                num_scopes,
                num_hierarchy_vars,
                num_vars,
                num_vc_blocks,
                timescale,
                writer,
                date,
                filetype,
                timezero,
            },
        )
    }
}

/// The executable result `r` is the outcome `o`.
pub open spec fn header_agrees(
    r: Result<HeaderBlockContent, PositionError>,
    o: Result<HeaderView, Frames>,
) -> bool {
    match (r, o) {
        (Ok(h), Ok(v)) => h@ == v,
        (Err(e), Err(f)) => e@ == f,
        _ => false,
    }
}

/// A header block, with what it decodes to once that has been asked for.
#[derive(Debug)]
pub struct HeaderBlock {
    block: Block,
    decoded: Option<Result<HeaderBlockContent, PositionError>>,
}

impl View for HeaderBlock {
    type V = BlockView;

    closed spec fn view(&self) -> BlockView {
        self.block@
    }
}

impl HeaderBlock {
    /// What is kept is what the block decodes to.
    #[verifier::type_invariant]
    closed spec fn coherent(self) -> bool {
        match self.decoded {
            None => true,
            Some(r) => header_agrees(r, spec_header(self.block.data@)),
        }
    }

    /// Takes a framed block as a header block.
    pub fn from_block(block: Block) -> (b: HeaderBlock)
        ensures
            b@ == block@,
    {
        HeaderBlock { block, decoded: None }
    }

    /// The framed block.
    pub fn block(&self) -> (b: &Block)
        ensures
            b@ == self@,
    {
        &self.block
    }

    /// Decodes the block.
    pub fn get_content(&self) -> (r: Result<HeaderBlockContent, PositionError>)
        ensures
            header_agrees(r, spec_header(self@.payload)),
    {
        HeaderBlockContent::parse(self.block.get_data_raw())
    }

    /// What the block decodes to.  It is decoded when this is first asked
    /// for, and the result is kept.
    pub fn decoded(&mut self) -> (r: Result<&HeaderBlockContent, &PositionError>)
        ensures
            match (r, spec_header(old(self)@.payload)) {
                (Ok(h), Ok(v)) => h@ == v,
                (Err(e), Err(f)) => e@ == f,
                _ => false,
            },
            final(self)@ == old(self)@,
    {
        proof {
            use_type_invariant(&*self);
        }
        if self.decoded.is_none() {
            let fresh = self.get_content();
            self.decoded = Some(fresh);
        }
        match &self.decoded {
            Some(Ok(content)) => Ok(content),
            Some(Err(e)) => Err(e),
            None => vstd::pervasive::unreached(),
        }
    }
}

/// A record of the right length that names a known kind of file is a header
/// if and only if its probe is the pattern of e; where it is not, the error
/// is `EndiannessMismatch`, at the probe.
pub proof fn lemma_header_fails_iff_probe_differs(s: Seq<u8>)
    requires
        s.len() == HEADER_LEN,
        FileType::from_code(s[312]) is Some,
    ensures
        spec_header(s) is Err <==> le_u64_value(s, 16) != ENDIANNESS_PROBE,
        spec_header(s) is Err ==> spec_header(s)->Err_0 == fail(
            16,
            FstFileParseErrorKind::EndiannessMismatch,
        ),
{
}

} // verus!
