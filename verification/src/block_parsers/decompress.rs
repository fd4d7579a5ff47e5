//! The calls into the compression libraries, and what is done with their
//! results.
//!
//! What a stream expands to is not stated here: it is named
//! ([`gzip_inflated`], [`zlib_inflated`], [`lz4_inflated`]), and the
//! contracts of this crate speak of the bytes by those names.

use std::io::Read;
use vstd::prelude::*;
use vstd::slice::slice_to_vec;
use crate::error::DecompressReason;
use crate::primitives::{be_u64_at, be_u64_value, rest_of};

verus! {

/// The error of a reader of `std::io`.  Nothing is stated of what it holds.
#[verifier::external_type_specification]
#[verifier::external_body]
pub struct ExIoError(std::io::Error);

/// The error of the LZ4 block decoder of `lz4_flex`.  Nothing is stated of
/// what it holds.
#[verifier::external_type_specification]
#[verifier::external_body]
pub struct ExLz4DecompressError(lz4_flex::block::DecompressError);

/// The first `limit` bytes (or all, if there are fewer) that the gzip stream
/// `input` expands to; `None` where the reader reports an error before it has
/// given them.
pub uninterp spec fn gzip_inflated(input: Seq<u8>, limit: u64) -> Option<Seq<u8>>;

/// The first `limit` bytes (or all, if there are fewer) that the zlib stream
/// `input` expands to; `None` where the reader reports an error before it has
/// given them.
pub uninterp spec fn zlib_inflated(input: Seq<u8>, limit: u64) -> Option<Seq<u8>>;

/// The bytes that the LZ4 block `input` expands to in a buffer of `size`
/// bytes; `None` where the decoder reports an error.
pub uninterp spec fn lz4_inflated(input: Seq<u8>, size: usize) -> Option<Seq<u8>>;

/// Reads the gzip stream `input` to its end, or up to `limit` bytes of
/// output, with `flate2::read::GzDecoder` behind `std::io::Read::take`.
///
/// The contract only names the outcome: the bytes read are
/// `gzip_inflated(input, limit)`, and an error of the reader is its `None`.
#[verifier::external_body]
pub(crate) fn gzip_read(input: &[u8], limit: u64) -> (r: Result<Vec<u8>, std::io::Error>)
    ensures
        match r {
            Ok(out) => gzip_inflated(input@, limit) == Some(out@),
            Err(_) => gzip_inflated(input@, limit) is None,
        },
{
    let mut out = Vec::new();
    match flate2::read::GzDecoder::new(input).take(limit).read_to_end(&mut out) {
        Ok(_) => Ok(out),
        Err(e) => Err(e),
    }
}

/// Reads the zlib stream `input` to its end, or up to `limit` bytes of
/// output, with `flate2::read::ZlibDecoder` behind `std::io::Read::take`.
///
/// The contract only names the outcome: the bytes read are
/// `zlib_inflated(input, limit)`, and an error of the reader is its `None`.
#[verifier::external_body]
pub(crate) fn zlib_read(input: &[u8], limit: u64) -> (r: Result<Vec<u8>, std::io::Error>)
    ensures
        match r {
            Ok(out) => zlib_inflated(input@, limit) == Some(out@),
            Err(_) => zlib_inflated(input@, limit) is None,
        },
{
    let mut out = Vec::new();
    match flate2::read::ZlibDecoder::new(input).take(limit).read_to_end(&mut out) {
        Ok(_) => Ok(out),
        Err(e) => Err(e),
    }
}

/// How many bytes `0xFF` stand in a row just before index `i`.
pub open spec fn ff_run_before(s: Seq<u8>, i: int) -> nat
    decreases i,
{
    if i <= 0 || i > s.len() || s[i - 1] != 0xFF {
        0
    } else {
        1 + ff_run_before(s, i - 1)
    }
}

/// The length of the longest run of bytes `0xFF` that ends before index `i`.
pub open spec fn longest_ff_run_before(s: Seq<u8>, i: int) -> nat
    decreases i,
{
    if i <= 0 {
        0
    } else if ff_run_before(s, i) > longest_ff_run_before(s, i - 1) {
        ff_run_before(s, i)
    } else {
        longest_ff_run_before(s, i - 1)
    }
}

/// The lengths inside the LZ4 block `input` can be added up for a buffer of
/// `size` bytes.  A length is spelled as a run of bytes `0xFF` and one more
/// byte, which the decoder adds in 32 bits; to the sum it adds at most 19
/// and the place in the buffer.  With a longest run of `k` bytes no sum is
/// above `255 * k + 254`.
pub open spec fn lz4_lengths_fit(input: Seq<u8>, size: usize) -> bool {
    let k = longest_ff_run_before(input, input.len() as int);
    &&& 255 * k + 254 <= u32::MAX
    &&& 255 * k + 254 + 19 + size <= usize::MAX
    &&& size <= isize::MAX
}

/// Expands the LZ4 block `input` into a buffer of `size` bytes with
/// `lz4_flex::block::decompress`.
///
/// The decoder allocates `size` bytes and adds up lengths as
/// [`lz4_lengths_fit`] tells; the precondition keeps both within range.  The
/// contract only names the outcome: the bytes are `lz4_inflated(input, size)`,
/// and an error of the decoder is its `None`.
#[verifier::external_body]
pub(crate) fn lz4_block_decompress(input: &[u8], size: usize) -> (r: Result<
    Vec<u8>,
    lz4_flex::block::DecompressError,
>)
    requires
        lz4_lengths_fit(input@, size),
    ensures
        match r {
            Ok(out) => lz4_inflated(input@, size) == Some(out@),
            Err(_) => lz4_inflated(input@, size) is None,
        },
{
    lz4_flex::block::decompress(input, size)
}

/// The length of the longest run of bytes `0xFF` in `data`.
pub fn longest_ff_run(data: &[u8]) -> (k: usize)
    ensures
        k == longest_ff_run_before(data@, data@.len() as int),
{
    let mut longest: usize = 0;
    let mut run: usize = 0;
    let mut i: usize = 0;
    while i < data.len()
        invariant
            i <= data.len(),
            run == ff_run_before(data@, i as int),
            run <= i,
            longest == longest_ff_run_before(data@, i as int),
            longest <= i,
        decreases data.len() - i,
    {
        if data[i] == 0xFF {
            run = run + 1;
        } else {
            run = 0;
        }
        i = i + 1;
        if run > longest {
            longest = run;
        }
    }
    longest
}

/// The limit to hand to a reader so that one byte above `max_size` can be
/// seen.
pub open spec fn read_limit(max_size: usize) -> u64 {
    if max_size < u64::MAX {
        (max_size + 1) as u64
    } else {
        u64::MAX
    }
}

/// What a read under `read_limit(max_size)` comes to.
pub open spec fn spec_checked_read(read: Option<Seq<u8>>, max_size: usize) -> Result<
    Seq<u8>,
    DecompressReason,
> {
    match read {
        None => Err(DecompressReason::IoError),
        Some(out) => if out.len() > max_size {
            Err(DecompressReason::SizeCapExceeded)
        } else {
            Ok(out)
        },
    }
}

/// What an expansion of an LZ4 block comes to.
pub open spec fn spec_checked_block(block: Option<Seq<u8>>) -> Result<Seq<u8>, DecompressReason> {
    match block {
        None => Err(DecompressReason::Lz4),
        Some(out) => Ok(out),
    }
}

/// Turns the outcome of a read under `read_limit(max_size)` into the
/// library's own: the error of the reader becomes `IoError`, and more than
/// `max_size` bytes `SizeCapExceeded`.
pub fn checked_read(read: Result<Vec<u8>, std::io::Error>, max_size: usize) -> (r: Result<
    Vec<u8>,
    DecompressReason,
>)
    ensures
        match (r, read) {
            (Ok(out), Ok(got)) => got@.len() <= max_size && out@ == got@,
            (Err(e), Ok(got)) => got@.len() > max_size && e == DecompressReason::SizeCapExceeded,
            (Err(e), Err(_)) => e == DecompressReason::IoError,
            _ => false,
        },
{
    match read {
        Err(_) => Err(DecompressReason::IoError),
        Ok(out) => {
            if out.len() > max_size {
                Err(DecompressReason::SizeCapExceeded)
            } else {
                Ok(out)
            }
        },
    }
}

/// Turns the outcome of an LZ4 expansion into the library's own: the error
/// of the decoder becomes `Lz4`.
pub fn checked_block(block: Result<Vec<u8>, lz4_flex::block::DecompressError>) -> (r: Result<
    Vec<u8>,
    DecompressReason,
>)
    ensures
        match (r, block) {
            (Ok(out), Ok(got)) => out@ == got@,
            (Err(e), Err(_)) => e == DecompressReason::Lz4,
            _ => false,
        },
{
    match block {
        Err(_) => Err(DecompressReason::Lz4),
        Ok(out) => Ok(out),
    }
}

/// The bytes that the gzip stream `input` expands to, where they are at most
/// `max_size`.
pub open spec fn spec_gunzip(input: Seq<u8>, max_size: usize) -> Result<Seq<u8>, DecompressReason> {
    spec_checked_read(gzip_inflated(input, read_limit(max_size)), max_size)
}

/// The bytes that the zlib stream `input` expands to, where they are at most
/// `max_size`.
pub open spec fn spec_inflate(input: Seq<u8>, max_size: usize) -> Result<Seq<u8>, DecompressReason> {
    spec_checked_read(zlib_inflated(input, read_limit(max_size)), max_size)
}

/// The bytes that the LZ4 block `input` expands to, for a declared size of
/// `declared` and a maximum of `max_size`.
pub open spec fn spec_unlz4(input: Seq<u8>, declared: u64, max_size: usize) -> Result<
    Seq<u8>,
    DecompressReason,
> {
    if declared > max_size || declared > isize::MAX {
        Err(DecompressReason::SizeCapExceeded)
    } else if !lz4_lengths_fit(input, declared as usize) {
        Err(DecompressReason::Lz4LengthOverflow)
    } else {
        spec_checked_block(lz4_inflated(input, declared as usize))
    }
}

/// The bytes that `input` expands to when it is an LZ4 block of an LZ4
/// block: eight bytes with the size in between, then the outer block.
pub open spec fn spec_unlz4_twice(input: Seq<u8>, declared: u64, max_size: usize) -> Result<
    Seq<u8>,
    DecompressReason,
> {
    if input.len() < 8 {
        Err(DecompressReason::MissingLength)
    } else {
        match spec_unlz4(input.skip(8), be_u64_value(input, 0) as u64, max_size) {
            Err(e) => Err(e),
            Ok(once) => spec_unlz4(once, declared, max_size),
        }
    }
}

/// The limit to hand to a reader for a maximum of `max_size` bytes.
fn limit_for(max_size: usize) -> (limit: u64)
    ensures
        limit == read_limit(max_size),
{
    let m: u64 = max_size as u64;
    if m < u64::MAX {
        m + 1
    } else {
        u64::MAX
    }
}

/// Expands a gzip stream, refusing more than `max_size` bytes of output.
pub fn gzip_decompress(input: &[u8], max_size: usize) -> (r: Result<Vec<u8>, DecompressReason>)
    ensures
        match (r, spec_gunzip(input@, max_size)) {
            (Ok(out), Ok(o)) => out@ == o,
            (Err(e), Err(f)) => e == f,
            _ => false,
        },
{
    checked_read(gzip_read(input, limit_for(max_size)), max_size)
}

/// Expands a zlib stream, refusing more than `max_size` bytes of output.
pub fn zlib_decompress(input: &[u8], max_size: usize) -> (r: Result<Vec<u8>, DecompressReason>)
    ensures
        match (r, spec_inflate(input@, max_size)) {
            (Ok(out), Ok(o)) => out@ == o,
            (Err(e), Err(f)) => e == f,
            _ => false,
        },
{
    checked_read(zlib_read(input, limit_for(max_size)), max_size)
}

/// Expands an LZ4 block whose expanded size is declared as `declared`,
/// refusing a declared size above `max_size`.
pub fn lz4_decompress(input: &[u8], declared: u64, max_size: usize) -> (r: Result<
    Vec<u8>,
    DecompressReason,
>)
    ensures
        match (r, spec_unlz4(input@, declared, max_size)) {
            (Ok(out), Ok(o)) => out@ == o,
            (Err(e), Err(f)) => e == f,
            _ => false,
        },
{
    if declared > max_size as u64 || declared > isize::MAX as u64 {
        return Err(DecompressReason::SizeCapExceeded);
    }
    let size: usize = declared as usize;
    let k: usize = longest_ff_run(input);
    if k > 16_843_008 || k > (usize::MAX - size - 273) / 255 {
        return Err(DecompressReason::Lz4LengthOverflow);
    }
    checked_block(lz4_block_decompress(input, size))
}

/// Expands an LZ4 block of an LZ4 block.  `input` starts with the size in
/// between, as a big-endian 64-bit number; `declared` is the size at the
/// end.  Neither size may be above `max_size`.
pub fn lz4_double_decompress(input: &[u8], declared: u64, max_size: usize) -> (r: Result<
    Vec<u8>,
    DecompressReason,
>)
    ensures
        match (r, spec_unlz4_twice(input@, declared, max_size)) {
            (Ok(out), Ok(o)) => out@ == o,
            (Err(e), Err(f)) => e == f,
            _ => false,
        },
{
    match be_u64_at(input, 0) {
        Err(_) => Err(DecompressReason::MissingLength),
        Ok((next, declared_once)) => match lz4_decompress(
            rest_of(input, next),
            declared_once,
            max_size,
        ) {
            Err(e) => Err(e),
            Ok(once) => lz4_decompress(once.as_slice(), declared, max_size),
        },
    }
}

/// The bytes of a region that is stored as it is where its length is the
/// declared one, and as a zlib stream where it is not.
pub open spec fn spec_region_bytes(raw: Seq<u8>, declared: usize, max_size: usize) -> Result<
    Seq<u8>,
    DecompressReason,
> {
    if raw.len() == declared {
        Ok(raw)
    } else {
        spec_inflate(raw, max_size)
    }
}

/// The bytes of a region: a copy of `raw` where it has the declared length,
/// else what it expands to.
pub fn region_bytes(raw: &[u8], declared: usize, max_size: usize) -> (r: Result<
    Vec<u8>,
    DecompressReason,
>)
    ensures
        match (r, spec_region_bytes(raw@, declared, max_size)) {
            (Ok(out), Ok(o)) => out@ == o,
            (Err(e), Err(f)) => e == f,
            _ => false,
        },
{
    if raw.len() == declared {
        Ok(slice_to_vec(raw))
    } else {
        zlib_decompress(raw, max_size)
    }
}

} // verus!
