//! Variable-length integers: base 128, least significant group first, the
//! high bit of a byte saying that another byte follows.

use vstd::prelude::*;
use crate::error::{Frames, FstFileParseErrorKind, PositionError, fail, labelled};
use crate::primitives::{Outcome, agrees, prepended, rest_of, spec_as_usize};

verus! {

/// The most bytes with the high bit set that a number may start with.
pub const MAX_CONTINUATION: usize = 10;

/// Variable sized unsigned int.
#[derive(Debug, Clone, Copy, PartialEq, Eq, PartialOrd, Ord)]
pub struct VarInt(pub u64);

/// Variable sized signed int.
#[derive(Debug, Clone, Copy, PartialEq, Eq, PartialOrd, Ord)]
pub struct SVarInt(pub i64);

/// How many bytes with the high bit set stand at `pos` in a row.
pub open spec fn continuation_len(s: Seq<u8>, pos: int) -> nat
    decreases s.len() - pos,
{
    if 0 <= pos < s.len() && s[pos] >= 0x80 {
        1 + continuation_len(s, pos + 1)
    } else {
        0
    }
}

/// The seven payload bits of a byte.
pub open spec fn group(b: u8) -> int {
    b as int % 128
}

/// The number that the groups of the `n + 1` bytes at `pos` spell, the one
/// at `pos` being the least significant.
pub open spec fn unsigned_value(s: Seq<u8>, pos: int, n: nat) -> int
    decreases n,
{
    if n == 0 {
        group(s[pos])
    } else {
        group(s[pos]) + 128 * unsigned_value(s, pos + 1, (n - 1) as nat)
    }
}

/// What the last byte of a signed number stands for: all ones where its
/// bit 6 is set, else its own value.
pub open spec fn signed_seed(b: u8) -> int {
    if group(b) >= 64 {
        -1
    } else {
        group(b)
    }
}

/// The number that the `n + 1` bytes at `pos` spell when the last of them
/// is read as a sign-carrying seed.
pub open spec fn signed_value(s: Seq<u8>, pos: int, n: nat) -> int
    decreases n,
{
    if n == 0 {
        signed_seed(s[pos])
    } else {
        group(s[pos]) + 128 * signed_value(s, pos + 1, (n - 1) as nat)
    }
}

/// The number that a tail of the bytes spells is not above the number that
/// all of them spell, and neither is below zero.
pub proof fn lemma_unsigned_value_bounds(s: Seq<u8>, pos: int, n: nat, k: nat)
    requires
        k <= n,
    ensures
        0 <= unsigned_value(s, pos + k, (n - k) as nat) <= unsigned_value(s, pos, n),
    decreases n,
{
    if n > 0 {
        lemma_unsigned_value_bounds(s, pos + 1, (n - 1) as nat, 0);
        if k > 0 {
            lemma_unsigned_value_bounds(s, pos + 1, (n - 1) as nat, (k - 1) as nat);
        }
    }
}

/// Once a tail of the number has left the 64-bit range, the whole has.
pub proof fn lemma_signed_value_escapes(s: Seq<u8>, pos: int, n: nat, k: nat)
    requires
        k <= n,
    ensures
        signed_value(s, pos + k, (n - k) as nat) > i64::MAX ==> signed_value(s, pos, n) > i64::MAX,
        signed_value(s, pos + k, (n - k) as nat) < i64::MIN ==> signed_value(s, pos, n) < i64::MIN,
    decreases k,
{
    if k > 0 {
        lemma_signed_value_escapes(s, pos + 1, (n - 1) as nat, (k - 1) as nat);
    }
}

impl VarInt {
    /// The number at `pos`: at most ten bytes with the high bit set, then
    /// one without, whose groups spell a value below 2^64.
    pub open spec fn spec_parse_at(s: Seq<u8>, pos: int) -> Outcome<VarInt> {
        let n = continuation_len(s, pos);
        if n > MAX_CONTINUATION {
            Err(labelled(pos, FstFileParseErrorKind::VarintOverflow, "varint"))
        } else if pos < 0 || pos + n >= s.len() {
            Err(labelled(pos, FstFileParseErrorKind::Truncated, "varint"))
        } else if unsigned_value(s, pos, n) > u64::MAX {
            Err(labelled(pos, FstFileParseErrorKind::VarintOverflow, "varint"))
        } else {
            Ok((pos + n + 1, VarInt(unsigned_value(s, pos, n) as u64)))
        }
    }

    /// Reads the number at `pos`.
    pub fn parse_at(data: &[u8], pos: usize) -> (r: Result<(usize, VarInt), PositionError>)
        ensures
            agrees(r, Self::spec_parse_at(data@, pos as int)),
    {
        let n: usize = scan_continuation(data, pos);
        if n > MAX_CONTINUATION {
            return Err(
                PositionError::new(pos, FstFileParseErrorKind::VarintOverflow).context(
                    pos,
                    "varint",
                ),
            );
        }
        if pos > data.len() || n >= data.len() - pos {
            return Err(
                PositionError::new(pos, FstFileParseErrorKind::Truncated).context(pos, "varint"),
            );
        }
        let mut k: usize = n;
        let mut acc: u64 = (data[pos + n] % 128) as u64;
        while k > 0
            invariant
                k <= n <= MAX_CONTINUATION,
                pos + n < data.len(),
                n == continuation_len(data@, pos as int),
                acc == unsigned_value(data@, pos + k, (n - k) as nat),
            decreases k,
        {
            if acc > u64::MAX / 128 {
                proof {
                    lemma_unsigned_value_bounds(data@, pos as int, n as nat, (k - 1) as nat);
                }
                return Err(
                    PositionError::new(pos, FstFileParseErrorKind::VarintOverflow).context(
                        pos,
                        "varint",
                    ),
                );
            }
            k = k - 1;
            acc = acc * 128 + (data[pos + k] % 128) as u64;
        }
        Ok((pos + n + 1, VarInt(acc)))
    }

    /// The number at `pos`, as a length on this machine.
    pub open spec fn spec_parse_as_usize_at(s: Seq<u8>, pos: int) -> Outcome<usize> {
        spec_as_usize(Self::spec_parse_at(s, pos), pos, |v: VarInt| v.0 as int)
    }

    /// Reads the number at `pos`, which must fit a length on this machine.
    pub fn parse_as_usize_at(data: &[u8], pos: usize) -> (r: Result<(usize, usize), PositionError>)
        ensures
            agrees(r, Self::spec_parse_as_usize_at(data@, pos as int)),
    {
        match Self::parse_at(data, pos) {
            Err(e) => Err(e.context(pos, "as usize")),
            Ok((next, v)) => {
                if v.0 > usize::MAX as u64 {
                    Err(
                        PositionError::new(
                            pos,
                            FstFileParseErrorKind::LengthExceedsMachineWord,
                        ).context(pos, "as usize"),
                    )
                } else {
                    Ok((next, v.0 as usize))
                }
            },
        }
    }

    /// Reads the number at the start of `input`, and gives what follows it.
    pub fn parse(input: &[u8]) -> (r: Result<(&[u8], VarInt), PositionError>)
        ensures
            match (r, Self::spec_parse_at(input@, 0)) {
                (Ok((rest, value)), Ok((next, v))) => rest@ == input@.skip(next) && value == v,
                (Err(e), Err(f)) => e@ == f,
                _ => false,
            },
    {
        match Self::parse_at(input, 0) {
            Ok((next, value)) => Ok((rest_of(input, next), value)),
            Err(e) => Err(e),
        }
    }
}

/// The `count` numbers that stand one after another from `pos` on.
pub open spec fn spec_varints(s: Seq<u8>, pos: int, count: nat) -> Outcome<Seq<VarInt>>
    decreases count,
{
    if count == 0 {
        Ok((pos, Seq::empty()))
    } else {
        match VarInt::spec_parse_at(s, pos) {
            Err(f) => Err(f),
            Ok((next, v)) => prepended(seq![v], spec_varints(s, next, (count - 1) as nat)),
        }
    }
}

/// The `count` numbers that make up all of `s`: fewer are an error of the
/// number that is missing, more bytes are `TrailingBytes`.
pub open spec fn spec_varints_exact(s: Seq<u8>, count: nat) -> Result<Seq<VarInt>, Frames> {
    match spec_varints(s, 0, count) {
        Err(f) => Err(f),
        Ok((end, values)) => if end < s.len() {
            Err(fail(end, FstFileParseErrorKind::TrailingBytes))
        } else {
            Ok(values)
        },
    }
}

/// A number is at least one byte long and ends within the buffer.
pub proof fn lemma_varint_advances(s: Seq<u8>, pos: int)
    requires
        VarInt::spec_parse_at(s, pos) is Ok,
    ensures
        pos < VarInt::spec_parse_at(s, pos)->Ok_0.0 <= s.len(),
{
}

/// Reads `count` numbers one after another from `pos` on.
pub fn parse_varints(data: &[u8], pos: usize, count: usize) -> (r: Result<
    (usize, Vec<VarInt>),
    PositionError,
>)
    ensures
        match (r, spec_varints(data@, pos as int, count as nat)) {
            (Ok((next, values)), Ok((n, v))) => next == n && values@ == v && (pos <= data@.len()
                ==> next <= data@.len()),
            (Err(e), Err(f)) => e@ == f,
            _ => false,
        },
{
    let mut values: Vec<VarInt> = Vec::new();
    let mut at: usize = pos;
    let mut i: usize = 0;
    while i < count
        invariant
            i <= count,
            pos <= data@.len() ==> at <= data@.len(),
            spec_varints(data@, pos as int, count as nat) == prepended(
                values@,
                spec_varints(data@, at as int, (count - i) as nat),
            ),
        decreases count - i,
    {
        match VarInt::parse_at(data, at) {
            Err(e) => {
                return Err(e);
            },
            Ok((next, v)) => {
                proof {
                    lemma_varint_advances(data@, at as int);
                    let tail = spec_varints(data@, next as int, (count - i - 1) as nat);
                    if let Ok((end, rest)) = tail {
                        assert(values@ + (seq![v] + rest) =~= values@.push(v) + rest);
                    }
                }
                values.push(v);
                at = next;
                i = i + 1;
            },
        }
    }
    proof {
        assert(values@ + Seq::<VarInt>::empty() =~= values@);
    }
    Ok((at, values))
}

/// Reads the `count` numbers that make up all of `data`.
pub fn parse_varints_exact(data: &[u8], count: usize) -> (r: Result<Vec<VarInt>, PositionError>)
    ensures
        match (r, spec_varints_exact(data@, count as nat)) {
            (Ok(values), Ok(v)) => values@ == v && values@.len() == count,
            (Err(e), Err(f)) => e@ == f,
            _ => false,
        },
{
    match parse_varints(data, 0, count) {
        Err(e) => Err(e),
        Ok((end, values)) => {
            if end < data.len() {
                Err(PositionError::new(end, FstFileParseErrorKind::TrailingBytes))
            } else {
                proof {
                    lemma_varints_count(data@, 0, count as nat);
                }
                Ok(values)
            }
        },
    }
}

/// Where `count` numbers can be read, there are `count` of them.
pub proof fn lemma_varints_count(s: Seq<u8>, pos: int, count: nat)
    requires
        spec_varints(s, pos, count) is Ok,
    ensures
        spec_varints(s, pos, count)->Ok_0.1.len() == count,
    decreases count,
{
    if count > 0 {
        let next = VarInt::spec_parse_at(s, pos)->Ok_0.0;
        lemma_varints_count(s, next, (count - 1) as nat);
    }
}

impl SVarInt {
    /// The signed number at `pos`: as the unsigned one, but the last byte
    /// stands for all ones where its bit 6 is set, and the value must lie
    /// in the signed 64-bit range.
    pub open spec fn spec_parse_at(s: Seq<u8>, pos: int) -> Outcome<SVarInt> {
        let n = continuation_len(s, pos);
        if n > MAX_CONTINUATION {
            Err(labelled(pos, FstFileParseErrorKind::VarintOverflow, "svarint"))
        } else if pos < 0 || pos + n >= s.len() {
            Err(labelled(pos, FstFileParseErrorKind::Truncated, "svarint"))
        } else if !(i64::MIN <= signed_value(s, pos, n) <= i64::MAX) {
            Err(labelled(pos, FstFileParseErrorKind::VarintOverflow, "svarint"))
        } else {
            Ok((pos + n + 1, SVarInt(signed_value(s, pos, n) as i64)))
        }
    }

    /// Reads the signed number at `pos`.
    pub fn parse_at(data: &[u8], pos: usize) -> (r: Result<(usize, SVarInt), PositionError>)
        ensures
            agrees(r, Self::spec_parse_at(data@, pos as int)),
    {
        let n: usize = scan_continuation(data, pos);
        if n > MAX_CONTINUATION {
            return Err(
                PositionError::new(pos, FstFileParseErrorKind::VarintOverflow).context(
                    pos,
                    "svarint",
                ),
            );
        }
        if pos > data.len() || n >= data.len() - pos {
            return Err(
                PositionError::new(pos, FstFileParseErrorKind::Truncated).context(pos, "svarint"),
            );
        }
        let last: u8 = data[pos + n];
        let mut k: usize = n;
        let mut acc: i64 = if last % 128 >= 64 {
            -1
        } else {
            (last % 128) as i64
        };
        while k > 0
            invariant
                k <= n <= MAX_CONTINUATION,
                pos + n < data.len(),
                n == continuation_len(data@, pos as int),
                acc == signed_value(data@, pos + k, (n - k) as nat),
            decreases k,
        {
            if acc > i64::MAX / 128 || acc < i64::MIN / 128 {
                proof {
                    lemma_signed_value_escapes(data@, pos as int, n as nat, (k - 1) as nat);
                }
                return Err(
                    PositionError::new(pos, FstFileParseErrorKind::VarintOverflow).context(
                        pos,
                        "svarint",
                    ),
                );
            }
            k = k - 1;
            acc = acc * 128 + (data[pos + k] % 128) as i64;
        }
        Ok((pos + n + 1, SVarInt(acc)))
    }

    /// Reads the signed number at the start of `input`, and gives what
    /// follows it.
    pub fn parse(input: &[u8]) -> (r: Result<(&[u8], SVarInt), PositionError>)
        ensures
            match (r, Self::spec_parse_at(input@, 0)) {
                (Ok((rest, value)), Ok((next, v))) => rest@ == input@.skip(next) && value == v,
                (Err(e), Err(f)) => e@ == f,
                _ => false,
            },
    {
        match Self::parse_at(input, 0) {
            Ok((next, value)) => Ok((rest_of(input, next), value)),
            Err(e) => Err(e),
        }
    }
}

/// Counts the bytes with the high bit set at `pos`, up to one more than a
/// number may have.
fn scan_continuation(data: &[u8], pos: usize) -> (n: usize)
    ensures
        n <= MAX_CONTINUATION + 1,
        n <= MAX_CONTINUATION ==> n == continuation_len(data@, pos as int),
        n > MAX_CONTINUATION ==> continuation_len(data@, pos as int) > MAX_CONTINUATION,
        n > 0 ==> pos + n <= data@.len(),
{
    let mut n: usize = 0;
    while n <= MAX_CONTINUATION && pos < data.len() && n < data.len() - pos && data[pos + n]
        >= 0x80
        invariant
            n <= MAX_CONTINUATION + 1,
            n > 0 ==> pos + n <= data@.len(),
            continuation_len(data@, pos as int) == n + continuation_len(data@, pos + n),
        decreases MAX_CONTINUATION + 1 - n,
    {
        n = n + 1;
    }
    n
}

} // verus!
