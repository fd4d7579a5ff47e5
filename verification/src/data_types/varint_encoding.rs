//! The bytes that spell a number, and the proof that reading them gives the
//! number back.

use vstd::prelude::*;
use crate::error::Frames;
use crate::data_types::varint::{
    MAX_CONTINUATION,
    SVarInt,
    VarInt,
    continuation_len,
    signed_value,
    unsigned_value,
};

verus! {

/// The bytes that spell `x`: its groups of seven bits, the lowest first,
/// each but the last with the high bit set.
pub open spec fn varint_encoding(x: nat) -> Seq<u8>
    decreases x,
{
    if x < 128 {
        seq![x as u8]
    } else {
        seq![(128 + x % 128) as u8] + varint_encoding(x / 128)
    }
}

/// The bytes that spell the signed number `x`.  A number from 0 to 63 is one
/// byte; -1 is the byte `0x7F`, which a reader takes for all ones; any other
/// number is its lowest group with the high bit set, then the bytes of the
/// rest.
pub open spec fn svarint_encoding(x: int) -> Seq<u8>
    decreases
            (if x >= 0 {
                x
            } else {
                -x
            }),
{
    if 0 <= x < 64 {
        seq![x as u8]
    } else if x == -1 {
        seq![0x7Fu8]
    } else {
        seq![(128 + x % 128) as u8] + svarint_encoding(x / 128)
    }
}

/// 128 to the power `k`.
pub open spec fn pow128(k: nat) -> nat
    decreases k,
{
    if k == 0 {
        1
    } else {
        128 * pow128((k - 1) as nat)
    }
}

/// What stands behind the first byte of a sequence is read as it would be
/// read alone.
proof fn lemma_behind_first_byte(b: u8, t: Seq<u8>, pos: int, n: nat)
    requires
        0 <= pos,
    ensures
        continuation_len(seq![b] + t, pos + 1) == continuation_len(t, pos),
        pos + n < t.len() ==> unsigned_value(seq![b] + t, pos + 1, n) == unsigned_value(t, pos, n),
        pos + n < t.len() ==> signed_value(seq![b] + t, pos + 1, n) == signed_value(t, pos, n),
    decreases t.len() - pos, n,
{
    let s = seq![b] + t;
    if pos < t.len() {
        assert(s[pos + 1] == t[pos]);
        lemma_behind_first_byte(b, t, pos + 1, 0);
        if n > 0 && pos + n < t.len() {
            lemma_behind_first_byte(b, t, pos + 1, (n - 1) as nat);
        }
    }
}

/// The bytes of a number are read back as the number.
proof fn lemma_varint_encoding_reads_back(x: nat)
    ensures
        varint_encoding(x).len() >= 1,
        continuation_len(varint_encoding(x), 0) == varint_encoding(x).len() - 1,
        unsigned_value(varint_encoding(x), 0, (varint_encoding(x).len() - 1) as nat) == x,
    decreases x,
{
    if x >= 128 {
        let rest = varint_encoding(x / 128);
        let first = (128 + x % 128) as u8;
        lemma_varint_encoding_reads_back(x / 128);
        lemma_behind_first_byte(first, rest, 0, (rest.len() - 1) as nat);
        assert((seq![first] + rest)[0] == first);
    }
}

/// A number below 128 to the power `k` is spelled with at most `k` bytes.
proof fn lemma_varint_encoding_len(x: nat, k: nat)
    requires
        k >= 1,
        x < pow128(k),
    ensures
        varint_encoding(x).len() <= k,
    decreases k,
{
    if x >= 128 {
        assert(pow128(1) == 128) by {
            reveal_with_fuel(pow128, 2);
        }
        lemma_varint_encoding_len(x / 128, (k - 1) as nat);
    }
}

/// The bytes of a signed number are read back as the number.
proof fn lemma_svarint_encoding_reads_back(x: int)
    ensures
        svarint_encoding(x).len() >= 1,
        continuation_len(svarint_encoding(x), 0) == svarint_encoding(x).len() - 1,
        signed_value(svarint_encoding(x), 0, (svarint_encoding(x).len() - 1) as nat) == x,
    decreases
            (if x >= 0 {
                x
            } else {
                -x
            }),
{
    if !(0 <= x < 64) && x != -1 {
        let rest = svarint_encoding(x / 128);
        let first = (128 + x % 128) as u8;
        lemma_svarint_encoding_reads_back(x / 128);
        lemma_behind_first_byte(first, rest, 0, (rest.len() - 1) as nat);
        assert((seq![first] + rest)[0] == first);
    }
}

/// A signed number from `-128^(k-1)` to below `64 * 128^(k-1)` is spelled
/// with at most `k` bytes.
proof fn lemma_svarint_encoding_len(x: int, k: nat)
    requires
        k >= 1,
        -pow128((k - 1) as nat) <= x < 64 * pow128((k - 1) as nat),
    ensures
        svarint_encoding(x).len() <= k,
    decreases k,
{
    if !(0 <= x < 64) && x != -1 {
        assert(pow128(0) == 1);
        lemma_svarint_encoding_len(x / 128, (k - 1) as nat);
    }
}

/// 128 to the powers 9 and 10.
proof fn lemma_pow128_values()
    ensures
        pow128(9) == 0x8000_0000_0000_0000,
        pow128(10) == 0x40_0000_0000_0000_0000,
{
    reveal_with_fuel(pow128, 11);
}

/// Reading the bytes that spell a 64-bit number gives the number back, and
/// uses up all of them.
pub proof fn lemma_varint_round_trip(x: u64)
    ensures
        VarInt::spec_parse_at(varint_encoding(x as nat), 0) == Ok::<(int, VarInt), Frames>(
            (varint_encoding(x as nat).len() as int, VarInt(x)),
        ),
        varint_encoding(x as nat).len() <= MAX_CONTINUATION,
{
    lemma_pow128_values();
    lemma_varint_encoding_len(x as nat, 10);
    lemma_varint_encoding_reads_back(x as nat);
}

/// Reading the bytes that spell a signed 64-bit number gives the number
/// back, and uses up all of them.
pub proof fn lemma_svarint_round_trip(x: i64)
    ensures
        SVarInt::spec_parse_at(svarint_encoding(x as int), 0) == Ok::<(int, SVarInt), Frames>(
            (svarint_encoding(x as int).len() as int, SVarInt(x)),
        ),
        svarint_encoding(x as int).len() <= MAX_CONTINUATION,
{
    lemma_pow128_values();
    lemma_svarint_encoding_len(x as int, 10);
    lemma_svarint_encoding_reads_back(x as int);
}

impl VarInt {
    /// The bytes that spell the number.
    pub fn encode(&self) -> (bytes: Vec<u8>)
        ensures
            bytes@ == varint_encoding(self.0 as nat),
    {
        let mut bytes: Vec<u8> = Vec::new();
        let mut x: u64 = self.0;
        assert(bytes@ + varint_encoding(x as nat) =~= varint_encoding(self.0 as nat));
        while x >= 128
            invariant
                bytes@ + varint_encoding(x as nat) == varint_encoding(self.0 as nat),
            decreases x,
        {
            let ghost before = bytes@;
            let low: u8 = (128 + x % 128) as u8;
            bytes.push(low);
            assert(before + (seq![low] + varint_encoding((x / 128) as nat)) =~= bytes@
                + varint_encoding((x / 128) as nat));
            x = x / 128;
        }
        let ghost before = bytes@;
        bytes.push(x as u8);
        assert(before + seq![x as u8] =~= bytes@);
        bytes
    }
}

impl SVarInt {
    /// The bytes that spell the number.
    pub fn encode(&self) -> (bytes: Vec<u8>)
        ensures
            bytes@ == svarint_encoding(self.0 as int),
    {
        let mut bytes: Vec<u8> = Vec::new();
        let mut x: i64 = self.0;
        assert(bytes@ + svarint_encoding(x as int) =~= svarint_encoding(self.0 as int));
        while !(0 <= x && x < 64) && x != -1
            invariant
                bytes@ + svarint_encoding(x as int) == svarint_encoding(self.0 as int),
            decreases
                    (if x >= 0 {
                        x as int
                    } else {
                        -(x as int)
                    }),
        {
            let ghost before = bytes@;
            let (q, r): (i64, i64) = if x >= 0 {
                (x / 128, x % 128)
            } else {
                let m: i64 = -(x + 1);
                (-(m / 128) - 1, 127 - m % 128)
            };
            assert(q == x as int / 128 && r == x as int % 128);
            let low: u8 = (128 + r) as u8;
            bytes.push(low);
            assert(before + (seq![low] + svarint_encoding(q as int)) =~= bytes@ + svarint_encoding(
                q as int,
            ));
            x = q;
        }
        let ghost before = bytes@;
        let last: u8 = if x == -1 {
            0x7F
        } else {
            x as u8
        };
        bytes.push(last);
        assert(before + seq![last] =~= bytes@);
        bytes
    }
}

} // verus!
