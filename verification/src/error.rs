//! The error model: a chain of `(byte offset, kind)` frames.

use vstd::prelude::*;

verus! {

/// Why a compressed region could not be expanded.
#[derive(Debug, Clone, Copy, PartialEq, Eq)]
pub enum DecompressReason {
    /// The gzip or zlib stream reader reported an error.
    IoError,
    /// The LZ4 block decoder reported an error.
    Lz4,
    /// The region is shorter than the length fields that precede the stream.
    MissingLength,
    /// A length inside the LZ4 block is spelled with more bytes than can be
    /// added up.
    Lz4LengthOverflow,
    /// A declared or produced size is above the allowed maximum.
    SizeCapExceeded,
}

/// One cause in an error chain.
#[derive(Debug, Clone, Copy, PartialEq, Eq)]
pub enum FstFileParseErrorKind {
    /// A kind byte that names no kind of block, or a block of a kind that
    /// the decoder asked does not decode.
    UnknownBlockKind(u8),
    /// A block length below the eight bytes of the length field itself.
    BlockLengthUnderflow,
    /// A length or count that this machine cannot hold.
    LengthExceedsMachineWord,
    /// A text that the buffer ends in before its NUL.
    StringNotTerminated,
    /// A header whose probe is not the bit pattern of e.
    EndiannessMismatch,
    UnknownScopeType(u8),
    UnknownAttrType(u8),
    UnknownMiscType(u8),
    UnknownVarType(u8),
    UnknownVarDir(u8),
    UnknownFileKind(u8),
    UnknownWriterPack(u8),
    /// A number, or a sum of numbers, that leaves the 64-bit range, or that
    /// is spelled with too many bytes.
    VarintOverflow,
    /// Bytes or tokens behind what was to be read.
    TrailingBytes,
    /// A buffer or a list of tokens that ends before what was to be read.
    Truncated,
    /// A value-change block whose regions do not fit its payload, or whose
    /// chain table breaks a rule.
    ChainTableMalformed,
    /// A compressed region that could not be expanded.
    DecompressError(DecompressReason),
    /// The label of an enclosing parser layer.
    Context(&'static str),
}

/// The frames of an error, as a sequence: the root cause first, then the
/// labels of the layers it passed through, innermost first.
pub type Frames = Seq<(usize, FstFileParseErrorKind)>;

/// A parse error with the byte offset of each of its frames.
#[derive(Debug, Clone, PartialEq)]
pub struct PositionError {
    pub errors: Vec<(usize, FstFileParseErrorKind)>,
}

impl View for PositionError {
    type V = Frames;

    open spec fn view(&self) -> Frames {
        self.errors@
    }
}

/// The chain that holds the single frame `(pos, kind)`.
pub open spec fn fail(pos: int, kind: FstFileParseErrorKind) -> Frames {
    seq![(pos as usize, kind)]
}

/// The frames of an error of the kind `kind` that the layer `label` raised
/// at `pos`.
pub open spec fn labelled(pos: int, kind: FstFileParseErrorKind, label: &'static str) -> Frames {
    fail(pos, kind).push((pos as usize, FstFileParseErrorKind::Context(label)))
}

/// `r`, with the frame `(pos, Context(label))` added where it is an error.
pub open spec fn in_context<T>(r: Result<T, Frames>, pos: int, label: &'static str) -> Result<
    T,
    Frames,
> {
    match r {
        Ok(v) => Ok(v),
        Err(f) => Err(f.push((pos as usize, FstFileParseErrorKind::Context(label)))),
    }
}

/// The frames of an error that was raised on expanded data.  Its offsets
/// count from the start of that data; the frame added here says so, and
/// gives the offset `at`, in the buffer around, at which the compressed form
/// starts.
pub open spec fn in_expanded(f: Frames, at: int) -> Frames {
    f.push((at as usize, FstFileParseErrorKind::Context("expanded data")))
}

/// The offset `pos` moved up by `by`, or the greatest offset there is where
/// that would be above it.
pub open spec fn moved(pos: usize, by: int) -> usize {
    if pos + by > usize::MAX {
        usize::MAX
    } else {
        (pos + by) as usize
    }
}

/// The frames `f`, each offset moved up by `by`.
pub open spec fn shifted(f: Frames, by: int) -> Frames {
    Seq::new(f.len(), |i: int| (moved(f[i].0, by), f[i].1))
}

impl PositionError {
    /// An error with one frame.
    pub fn new(pos: usize, kind: FstFileParseErrorKind) -> (e: PositionError)
        ensures
            e@ == fail(pos as int, kind),
    {
        let mut errors: Vec<(usize, FstFileParseErrorKind)> = Vec::new();
        errors.push((pos, kind));
        PositionError { errors }
    }

    /// Adds the label of an enclosing layer.
    pub fn context(self, pos: usize, label: &'static str) -> (e: PositionError)
        ensures
            e@ == self@.push((pos, FstFileParseErrorKind::Context(label))),
    {
        let mut errors = self.errors;
        errors.push((pos, FstFileParseErrorKind::Context(label)));
        PositionError { errors }
    }

    /// Marks the error as one that was raised on expanded data, whose
    /// compressed form starts at `at` in the buffer around.
    pub fn expanded(self, at: usize) -> (e: PositionError)
        ensures
            e@ == in_expanded(self@, at as int),
    {
        self.context(at, "expanded data")
    }

    /// The same error seen from a buffer in which the one it was raised on
    /// starts at offset `by`.
    pub fn shifted(self, by: usize) -> (e: PositionError)
        ensures
            e@ == shifted(self@, by as int),
    {
        let mut errors: Vec<(usize, FstFileParseErrorKind)> = Vec::new();
        let mut i: usize = 0;
        while i < self.errors.len()
            invariant
                i <= self.errors.len(),
                errors@ == shifted(self@, by as int).take(i as int),
            decreases self.errors.len() - i,
        {
            let frame: (usize, FstFileParseErrorKind) = self.errors[i];
            let pos: usize = if frame.0 > usize::MAX - by {
                usize::MAX
            } else {
                frame.0 + by
            };
            errors.push((pos, frame.1));
            i = i + 1;
            assert(errors@ =~= shifted(self@, by as int).take(i as int));
        }
        assert(errors@ =~= shifted(self@, by as int));
        PositionError { errors }
    }
}

} // verus!
