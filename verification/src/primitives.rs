//! Fixed-width integers and bounded strings, read at a position of a buffer.
//!
//! Every reader takes the whole buffer and the offset to read at, and gives
//! back the offset behind what it read.  An error carries the offset at
//! which the reader started.

use vstd::prelude::*;
use vstd::slice::slice_subrange;
use crate::error::{Frames, FstFileParseErrorKind, PositionError, fail, in_context};

verus! {

/// What a reader returns, in contracts: the next offset and the value, or
/// the frames of the error.
pub type Outcome<T> = Result<(int, T), Frames>;

/// The executable result `r` is the outcome `o`.
pub open spec fn agrees<T>(r: Result<(usize, T), PositionError>, o: Outcome<T>) -> bool {
    match (r, o) {
        (Ok((next, value)), Ok((n, v))) => next == n && value == v,
        (Err(e), Err(f)) => e@ == f,
        _ => false,
    }
}

/// `count` bytes can be read at `pos`.
pub open spec fn has_bytes(s: Seq<u8>, pos: int, count: int) -> bool {
    0 <= pos && 0 <= count && pos + count <= s.len()
}

/// The big-endian number in the eight bytes at `pos`.
pub open spec fn be_u64_value(s: Seq<u8>, pos: int) -> int {
    s[pos] * 0x0100_0000_0000_0000 + s[pos + 1] * 0x0001_0000_0000_0000 + s[pos + 2]
        * 0x0000_0100_0000_0000 + s[pos + 3] * 0x0000_0001_0000_0000 + s[pos + 4] * 0x0100_0000
        + s[pos + 5] * 0x0001_0000 + s[pos + 6] * 0x0100 + s[pos + 7]
}

/// The little-endian number in the eight bytes at `pos`.
pub open spec fn le_u64_value(s: Seq<u8>, pos: int) -> int {
    s[pos + 7] * 0x0100_0000_0000_0000 + s[pos + 6] * 0x0001_0000_0000_0000 + s[pos + 5]
        * 0x0000_0100_0000_0000 + s[pos + 4] * 0x0000_0001_0000_0000 + s[pos + 3] * 0x0100_0000
        + s[pos + 2] * 0x0001_0000 + s[pos + 1] * 0x0100 + s[pos]
}

/// The two's-complement reading of a 64-bit pattern.
pub open spec fn as_signed_64(v: int) -> int {
    if v < 0x8000_0000_0000_0000 {
        v
    } else {
        v - 0x1_0000_0000_0000_0000
    }
}

/// The two's-complement reading of an 8-bit pattern.
pub open spec fn as_signed_8(v: int) -> int {
    if v < 0x80 {
        v
    } else {
        v - 0x100
    }
}

/// The byte at `pos`.
pub open spec fn spec_u8(s: Seq<u8>, pos: int) -> Outcome<u8> {
    if has_bytes(s, pos, 1) {
        Ok((pos + 1, s[pos]))
    } else {
        Err(fail(pos, FstFileParseErrorKind::Truncated))
    }
}

/// The byte at `pos`, read as a signed number.
pub open spec fn spec_be_i8(s: Seq<u8>, pos: int) -> Outcome<i8> {
    if has_bytes(s, pos, 1) {
        Ok((pos + 1, as_signed_8(s[pos] as int) as i8))
    } else {
        Err(fail(pos, FstFileParseErrorKind::Truncated))
    }
}

/// The big-endian unsigned 64-bit number at `pos`.
pub open spec fn spec_be_u64(s: Seq<u8>, pos: int) -> Outcome<u64> {
    if has_bytes(s, pos, 8) {
        Ok((pos + 8, be_u64_value(s, pos) as u64))
    } else {
        Err(fail(pos, FstFileParseErrorKind::Truncated))
    }
}

/// The big-endian signed 64-bit number at `pos`.
pub open spec fn spec_be_i64(s: Seq<u8>, pos: int) -> Outcome<i64> {
    if has_bytes(s, pos, 8) {
        Ok((pos + 8, as_signed_64(be_u64_value(s, pos)) as i64))
    } else {
        Err(fail(pos, FstFileParseErrorKind::Truncated))
    }
}

/// The little-endian unsigned 64-bit number at `pos`.
pub open spec fn spec_le_u64(s: Seq<u8>, pos: int) -> Outcome<u64> {
    if has_bytes(s, pos, 8) {
        Ok((pos + 8, le_u64_value(s, pos) as u64))
    } else {
        Err(fail(pos, FstFileParseErrorKind::Truncated))
    }
}

/// The text that a run of bytes is shown as: the bytes read as UTF-8, with
/// the replacement character where they are not.  Named, not defined: it is
/// what `String::from_utf8_lossy` gives.
pub uninterp spec fn utf8_lossy(bytes: Seq<u8>) -> Seq<char>;

/// Every byte is below 128.
pub open spec fn is_ascii_bytes(bytes: Seq<u8>) -> bool {
    forall|i: int| 0 <= i < bytes.len() ==> #[trigger] bytes[i] < 0x80
}

/// The characters whose numbers the bytes are.
pub open spec fn ascii_text(bytes: Seq<u8>) -> Seq<char> {
    Seq::new(bytes.len(), |i: int| bytes[i] as char)
}

/// The text that a run of bytes is shown as: for bytes below 128 the
/// characters with their numbers, for others what `utf8_lossy` names.
pub open spec fn shown(bytes: Seq<u8>) -> Seq<char> {
    if is_ascii_bytes(bytes) {
        ascii_text(bytes)
    } else {
        utf8_lossy(bytes)
    }
}

/// How many of the `max` bytes at `pos` stand before the first NUL; `max`
/// where none of them is NUL.
pub open spec fn text_len(s: Seq<u8>, pos: int, max: nat) -> nat
    decreases max,
{
    if max == 0 || s[pos] == 0 {
        0
    } else {
        1 + text_len(s, pos + 1, (max - 1) as nat)
    }
}

/// The bytes of the text in a field of `size` bytes at `pos`: those before
/// the first NUL, or the whole field.
pub open spec fn spec_fixed_text(s: Seq<u8>, pos: int, size: nat) -> Outcome<Seq<u8>> {
    if has_bytes(s, pos, size as int) {
        Ok((pos + size, s.subrange(pos, pos + text_len(s, pos, size))))
    } else {
        Err(fail(pos, FstFileParseErrorKind::Truncated))
    }
}

/// The bytes of the text at `pos` that a NUL ends: those before the NUL,
/// which is passed over; or the first `max` bytes where none of them is NUL.
/// Where the buffer ends before either, the text is not terminated.
pub open spec fn spec_terminated_text(s: Seq<u8>, pos: int, max: nat) -> Outcome<Seq<u8>> {
    if pos < 0 || pos > s.len() {
        Err(fail(pos, FstFileParseErrorKind::StringNotTerminated))
    } else {
        let avail = if s.len() - pos < max {
            (s.len() - pos) as nat
        } else {
            max
        };
        let k = text_len(s, pos, avail);
        if k < avail {
            Ok((pos + k + 1, s.subrange(pos, pos + k)))
        } else if avail == max {
            Ok((pos + max, s.subrange(pos, pos + max)))
        } else {
            Err(fail(pos, FstFileParseErrorKind::StringNotTerminated))
        }
    }
}

/// `count` bytes at `pos`, passed over without being read.
pub open spec fn spec_skip(s: Seq<u8>, pos: int, count: int) -> Outcome<()> {
    if has_bytes(s, pos, count) {
        Ok((pos + count, ()))
    } else {
        Err(fail(pos, FstFileParseErrorKind::Truncated))
    }
}

/// The number `v` as a length on this machine.
pub open spec fn spec_as_usize<T>(o: Outcome<T>, pos: int, value: spec_fn(T) -> int) -> Outcome<
    usize,
> {
    in_context(
        match o {
            Err(f) => Err(f),
            Ok((next, v)) => if value(v) > usize::MAX {
                Err(fail(pos, FstFileParseErrorKind::LengthExceedsMachineWord))
            } else {
                Ok((next, value(v) as usize))
            },
        },
        pos,
        "as usize",
    )
}

/// The big-endian 64-bit number at `pos`, as a length on this machine.
pub open spec fn spec_be_u64_as_usize(s: Seq<u8>, pos: int) -> Outcome<usize> {
    spec_as_usize(spec_be_u64(s, pos), pos, |v: u64| v as int)
}

/// `acc` put before the values of `o`.
pub open spec fn prepended<T>(acc: Seq<T>, o: Outcome<Seq<T>>) -> Outcome<Seq<T>> {
    match o {
        Ok((end, rest)) => Ok((end, acc + rest)),
        Err(f) => Err(f),
    }
}

/// Whether `count` bytes can be read at `pos`.
pub fn in_bounds(data: &[u8], pos: usize, count: usize) -> (b: bool)
    ensures
        b == has_bytes(data@, pos as int, count as int),
        data@.len() <= usize::MAX,
{
    pos <= data.len() && count <= data.len() - pos
}

/// The bytes of `data` from `from` on.
pub fn rest_of(data: &[u8], from: usize) -> (rest: &[u8])
    requires
        from <= data.len(),
    ensures
        rest@ == data@.skip(from as int),
        from + rest@.len() == data@.len() <= usize::MAX,
{
    slice_subrange(data, from, data.len())
}

/// Reads one byte.
pub fn u8_at(data: &[u8], pos: usize) -> (r: Result<(usize, u8), PositionError>)
    ensures
        agrees(r, spec_u8(data@, pos as int)),
{
    if !in_bounds(data, pos, 1) {
        return Err(PositionError::new(pos, FstFileParseErrorKind::Truncated));
    }
    Ok((pos + 1, data[pos]))
}

/// Reads one byte as a signed number.
pub fn be_i8_at(data: &[u8], pos: usize) -> (r: Result<(usize, i8), PositionError>)
    ensures
        agrees(r, spec_be_i8(data@, pos as int)),
{
    if !in_bounds(data, pos, 1) {
        return Err(PositionError::new(pos, FstFileParseErrorKind::Truncated));
    }
    let b: u8 = data[pos];
    let v: i8 = if b < 0x80 {
        b as i8
    } else {
        ((b - 0x80) as i8) + i8::MIN
    };
    Ok((pos + 1, v))
}

/// Reads a big-endian unsigned 64-bit number.
pub fn be_u64_at(data: &[u8], pos: usize) -> (r: Result<(usize, u64), PositionError>)
    ensures
        agrees(r, spec_be_u64(data@, pos as int)),
{
    if !in_bounds(data, pos, 8) {
        return Err(PositionError::new(pos, FstFileParseErrorKind::Truncated));
    }
    let v: u64 = (data[pos] as u64) * 0x0100_0000_0000_0000 + (data[pos + 1] as u64)
        * 0x0001_0000_0000_0000 + (data[pos + 2] as u64) * 0x0000_0100_0000_0000 + (data[pos
        + 3] as u64) * 0x0000_0001_0000_0000 + (data[pos + 4] as u64) * 0x0100_0000 + (data[pos
        + 5] as u64) * 0x0001_0000 + (data[pos + 6] as u64) * 0x0100 + (data[pos + 7] as u64);
    Ok((pos + 8, v))
}

/// Reads a big-endian signed 64-bit number.
pub fn be_i64_at(data: &[u8], pos: usize) -> (r: Result<(usize, i64), PositionError>)
    ensures
        agrees(r, spec_be_i64(data@, pos as int)),
{
    match be_u64_at(data, pos) {
        Ok((next, v)) => {
            let w: i64 = if v < 0x8000_0000_0000_0000 {
                v as i64
            } else {
                ((v - 0x8000_0000_0000_0000) as i64) + i64::MIN
            };
            Ok((next, w))
        },
        Err(e) => Err(e),
    }
}

/// Reads a big-endian unsigned 64-bit number that must fit a length on
/// this machine.
pub fn be_u64_as_usize_at(data: &[u8], pos: usize) -> (r: Result<(usize, usize), PositionError>)
    ensures
        agrees(r, spec_be_u64_as_usize(data@, pos as int)),
{
    match be_u64_at(data, pos) {
        Err(e) => Err(e.context(pos, "as usize")),
        Ok((next, v)) => {
            if v > usize::MAX as u64 {
                Err(
                    PositionError::new(
                        pos,
                        FstFileParseErrorKind::LengthExceedsMachineWord,
                    ).context(pos, "as usize"),
                )
            } else {
                Ok((next, v as usize))
            }
        },
    }
}

/// Reads a little-endian unsigned 64-bit number.
pub fn le_u64_at(data: &[u8], pos: usize) -> (r: Result<(usize, u64), PositionError>)
    ensures
        agrees(r, spec_le_u64(data@, pos as int)),
{
    if !in_bounds(data, pos, 8) {
        return Err(PositionError::new(pos, FstFileParseErrorKind::Truncated));
    }
    let v: u64 = (data[pos + 7] as u64) * 0x0100_0000_0000_0000 + (data[pos + 6] as u64)
        * 0x0001_0000_0000_0000 + (data[pos + 5] as u64) * 0x0000_0100_0000_0000 + (data[pos
        + 4] as u64) * 0x0000_0001_0000_0000 + (data[pos + 3] as u64) * 0x0100_0000 + (data[pos
        + 2] as u64) * 0x0001_0000 + (data[pos + 1] as u64) * 0x0100 + (data[pos] as u64);
    Ok((pos + 8, v))
}

/// Shows bytes as text with `String::from_utf8_lossy`.  The contract names
/// the text, and says of it what the documentation of that function says of
/// valid UTF-8, for the bytes below 128 alone: such bytes are shown as the
/// characters with their numbers.
#[verifier::external_body]
pub(crate) fn lossy_text(bytes: &[u8]) -> (text: String)
    ensures
        text@ == utf8_lossy(bytes@),
        is_ascii_bytes(bytes@) ==> text@ == ascii_text(bytes@),
{
    String::from_utf8_lossy(bytes).into_owned()
}

/// Counts the bytes before the first NUL among the `max` bytes at `pos`.
fn scan_text(data: &[u8], pos: usize, max: usize) -> (k: usize)
    requires
        has_bytes(data@, pos as int, max as int),
    ensures
        k == text_len(data@, pos as int, max as nat),
        k <= max,
        k < max ==> data@[pos + k] == 0,
{
    let mut k: usize = 0;
    while k < max && data[pos + k] != 0
        invariant
            k <= max,
            data@.len() == data.len(),
            has_bytes(data@, pos as int, max as int),
            text_len(data@, pos as int, max as nat) == k + text_len(
                data@,
                pos + k,
                (max - k) as nat,
            ),
        decreases max - k,
    {
        k = k + 1;
    }
    k
}

/// The executable text `r` shows the bytes of the outcome `o`.
pub open spec fn text_agrees(r: Result<(usize, String), PositionError>, o: Outcome<Seq<u8>>) -> bool {
    match (r, o) {
        (Ok((next, text)), Ok((n, bytes))) => next == n && text@ == shown(bytes),
        (Err(e), Err(f)) => e@ == f,
        _ => false,
    }
}

/// Reads the text in a field of `size` bytes.
pub fn fixed_text_at(data: &[u8], pos: usize, size: usize) -> (r: Result<
    (usize, String),
    PositionError,
>)
    ensures
        text_agrees(r, spec_fixed_text(data@, pos as int, size as nat)),
{
    if !in_bounds(data, pos, size) {
        return Err(PositionError::new(pos, FstFileParseErrorKind::Truncated));
    }
    let k: usize = scan_text(data, pos, size);
    Ok((pos + size, lossy_text(slice_subrange(data, pos, pos + k))))
}

/// Reads the text at `pos` that a NUL ends, of at most `max` bytes.
pub fn terminated_text_at(data: &[u8], pos: usize, max: usize) -> (r: Result<
    (usize, String),
    PositionError,
>)
    ensures
        text_agrees(r, spec_terminated_text(data@, pos as int, max as nat)),
{
    if pos > data.len() {
        return Err(PositionError::new(pos, FstFileParseErrorKind::StringNotTerminated));
    }
    let avail: usize = if data.len() - pos < max {
        data.len() - pos
    } else {
        max
    };
    let k: usize = scan_text(data, pos, avail);
    if k < avail {
        Ok((pos + k + 1, lossy_text(slice_subrange(data, pos, pos + k))))
    } else if avail == max {
        Ok((pos + max, lossy_text(slice_subrange(data, pos, pos + max))))
    } else {
        Err(PositionError::new(pos, FstFileParseErrorKind::StringNotTerminated))
    }
}

/// Passes over `count` bytes.
pub fn skip_at(data: &[u8], pos: usize, count: usize) -> (r: Result<(usize, ()), PositionError>)
    ensures
        agrees(r, spec_skip(data@, pos as int, count as int)),
{
    if !in_bounds(data, pos, count) {
        return Err(PositionError::new(pos, FstFileParseErrorKind::Truncated));
    }
    Ok((pos + count, ()))
}

} // verus!
