//! The chain table of a value-change block: for each variable the offset of
//! its waveform data and the length of that data, or the mark of an alias.
//!
//! The table is written by a small machine that reads the position region
//! of the block, one variable-length number at a time.

use vstd::prelude::*;
use crate::data_types::varint::{SVarInt, VarInt};
use crate::error::{Frames, FstFileParseErrorKind, PositionError, fail, shifted};

verus! {

/// The state of the machine between two numbers.
pub struct ChainState {
    /// `chain_offset`, one entry per variable and one more.
    pub offsets: Seq<i64>,
    /// `chain_length`, of the same length.
    pub lengths: Seq<u32>,
    /// The last offset written.
    pub pval: int,
    /// The entry that holds the last offset written.
    pub pidx: int,
    /// The next entry to write.
    pub idx: int,
    /// The last alias mark written.
    pub prev_alias: u32,
}

/// The low 32 bits of the two's-complement pattern of `v`.
pub open spec fn low_32_bits(v: int) -> u32 {
    (v % 0x1_0000_0000) as u32
}

/// The state before the first number, for `count` variables.
pub open spec fn chain_start(count: nat) -> ChainState {
    ChainState {
        offsets: Seq::new(count + 1, |i: int| 0i64),
        lengths: Seq::new(count + 1, |i: int| 0u32),
        pval: 0,
        pidx: 0,
        idx: 0,
        prev_alias: 0,
    }
}

/// The frames of a table that breaks a rule, for a position region that
/// starts at `base`.
pub open spec fn malformed(base: int) -> Frames {
    fail(base, FstFileParseErrorKind::ChainTableMalformed)
}

/// The effect of an odd signed number `v` on the state.
pub open spec fn chain_entry(st: ChainState, v: int, base: int) -> Result<ChainState, Frames> {
    let shval = v / 2;
    if st.idx >= st.offsets.len() {
        Err(malformed(base))
    } else if shval > 0 {
        let pval = st.pval + shval;
        if pval > i64::MAX {
            Err(malformed(base))
        } else if st.idx != 0 && pval - st.offsets[st.pidx] > u32::MAX {
            Err(malformed(base))
        } else {
            Ok(
                ChainState {
                    offsets: st.offsets.update(st.idx, pval as i64),
                    lengths: if st.idx != 0 {
                        st.lengths.update(st.pidx, (pval - st.offsets[st.pidx]) as u32)
                    } else {
                        st.lengths
                    },
                    pval,
                    pidx: st.idx,
                    idx: st.idx + 1,
                    prev_alias: st.prev_alias,
                },
            )
        }
    } else if shval < 0 {
        Ok(
            ChainState {
                offsets: st.offsets.update(st.idx, 0),
                lengths: st.lengths.update(st.idx, low_32_bits(shval)),
                idx: st.idx + 1,
                prev_alias: low_32_bits(shval),
                ..st
            },
        )
    } else {
        Ok(
            ChainState {
                offsets: st.offsets.update(st.idx, 0),
                lengths: st.lengths.update(st.idx, st.prev_alias),
                idx: st.idx + 1,
                ..st
            },
        )
    }
}

/// The effect of an even unsigned number `v` on the state: a run of
/// `v / 2` entries without data.
pub open spec fn chain_run_of_zeros(st: ChainState, v: int, base: int) -> Result<
    ChainState,
    Frames,
> {
    let n = v / 2;
    if st.idx + n > st.offsets.len() {
        Err(malformed(base))
    } else {
        Ok(
            ChainState {
                offsets: Seq::new(
                    st.offsets.len(),
                    |i: int|
                        if st.idx <= i < st.idx + n {
                            0i64
                        } else {
                            st.offsets[i]
                        },
                ),
                idx: st.idx + n,
                ..st
            },
        )
    }
}

/// One step: the number at `at` in the region `p`, read as its low bit
/// says, and its effect.  Gives the new state and the offset behind the
/// number.
pub open spec fn chain_step(st: ChainState, p: Seq<u8>, at: int, base: int) -> Result<
    (ChainState, int),
    Frames,
> {
    if p[at] % 2 == 1 {
        match SVarInt::spec_parse_at(p, at) {
            Err(f) => Err(shifted(f, base)),
            Ok((next, v)) => match chain_entry(st, v.0 as int, base) {
                Err(f) => Err(f),
                Ok(st2) => Ok((st2, next)),
            },
        }
    } else {
        match VarInt::spec_parse_at(p, at) {
            Err(f) => Err(shifted(f, base)),
            Ok((next, v)) => match chain_run_of_zeros(st, v.0 as int, base) {
                Err(f) => Err(f),
                Ok(st2) => Ok((st2, next)),
            },
        }
    }
}

/// The steps from `at` to the end of the region.
pub open spec fn chain_steps(st: ChainState, p: Seq<u8>, at: int, base: int) -> Result<
    ChainState,
    Frames,
>
    decreases p.len() - at,
{
    if at < 0 || at >= p.len() {
        Ok(st)
    } else {
        match chain_step(st, p, at, base) {
            Err(f) => Err(f),
            Ok((st2, next)) => chain_steps(st2, p, next, base),
        }
    }
}

/// What holds of a finished table for `count` variables over a waves
/// region of `waves_len` bytes.
pub open spec fn chain_table_valid(
    offsets: Seq<i64>,
    lengths: Seq<u32>,
    count: nat,
    waves_len: nat,
) -> bool {
    &&& offsets.len() == count + 1
    &&& lengths.len() == count + 1
    &&& offsets[count as int] == waves_len + 1
    &&& forall|i: int|
        0 <= i < count && #[trigger] offsets[i] > 0 ==> offsets[i] <= waves_len + 1 && lengths[i]
            > 0
}

/// The closing writes, and the test of the finished table.
pub open spec fn chain_finish(st: ChainState, count: nat, waves_len: nat, base: int) -> Result<
    (Seq<i64>, Seq<u32>),
    Frames,
> {
    if st.idx != count || waves_len + 1 > i64::MAX {
        Err(malformed(base))
    } else {
        let offsets = st.offsets.update(st.idx, (waves_len + 1) as i64);
        let last = offsets[st.idx] - offsets[st.pidx];
        if last < 0 || last > u32::MAX {
            Err(malformed(base))
        } else {
            let lengths = st.lengths.update(st.pidx, last as u32);
            if chain_table_valid(offsets, lengths, count, waves_len) {
                Ok((offsets, lengths))
            } else {
                Err(malformed(base))
            }
        }
    }
}

/// The most variables for which a table can be held: their number must fit
/// 32 bits, and the table the address space.
pub open spec fn max_variables() -> int {
    if u32::MAX < isize::MAX / 8 {
        u32::MAX as int
    } else {
        isize::MAX / 8
    }
}

/// The chain table that the position region `p` spells for `count`
/// variables, where the waves region has `waves_len` bytes and the position
/// region starts at `base`.
pub open spec fn spec_chain_table(p: Seq<u8>, count: nat, waves_len: nat, base: int) -> Result<
    (Seq<i64>, Seq<u32>),
    Frames,
> {
    if count > max_variables() {
        Err(fail(base, FstFileParseErrorKind::LengthExceedsMachineWord))
    } else {
        match chain_steps(chain_start(count), p, 0, base) {
            Err(f) => Err(f),
            Ok(st) => chain_finish(st, count, waves_len, base),
        }
    }
}

/// A table that the machine ends well with is valid, and the machine has
/// then written one entry for each variable: its next entry is the last one.
pub proof fn lemma_chain_table_post(p: Seq<u8>, count: nat, waves_len: nat, base: int)
    requires
        spec_chain_table(p, count, waves_len, base) is Ok,
    ensures
        chain_steps(chain_start(count), p, 0, base) is Ok,
        chain_steps(chain_start(count), p, 0, base)->Ok_0.idx == count,
        ({
            let (offsets, lengths) = spec_chain_table(p, count, waves_len, base)->Ok_0;
            chain_table_valid(offsets, lengths, count, waves_len)
        }),
{
}

/// The state that the machine's variables hold.
pub open spec fn state_of(
    offsets: Seq<i64>,
    lengths: Seq<u32>,
    pval: i64,
    pidx: usize,
    idx: usize,
    prev_alias: u32,
) -> ChainState {
    ChainState {
        offsets,
        lengths,
        pval: pval as int,
        pidx: pidx as int,
        idx: idx as int,
        prev_alias,
    }
}

/// The low 32 bits of a negative number.
fn alias_mark(shval: i64) -> (m: u32)
    requires
        shval < 0,
    ensures
        m == low_32_bits(shval as int),
{
    let lifted: u64 = ((shval - i64::MIN) as u64) + 0x8000_0000_0000_0000u64;
    (lifted % 0x1_0000_0000) as u32
}

/// Tests a finished table.
fn table_is_valid(offsets: &Vec<i64>, lengths: &Vec<u32>, count: usize, waves_len: usize) -> (b:
    bool)
    requires
        offsets@.len() == count + 1,
        lengths@.len() == count + 1,
        offsets@[count as int] == waves_len + 1,
    ensures
        b == chain_table_valid(offsets@, lengths@, count as nat, waves_len as nat),
{
    let limit: i64 = offsets[count];
    let mut i: usize = 0;
    while i < count
        invariant
            i <= count,
            offsets@.len() == count + 1,
            lengths@.len() == count + 1,
            limit == waves_len + 1,
            forall|j: int|
                0 <= j < i && #[trigger] offsets@[j] > 0 ==> offsets@[j] <= waves_len + 1
                    && lengths@[j] > 0,
        decreases count - i,
    {
        if offsets[i] > 0 && (offsets[i] > limit || lengths[i] == 0) {
            return false;
        }
        i = i + 1;
    }
    true
}

/// Runs the machine over the position region and closes the table.
///
/// `base` is the offset of the region in the payload; the offsets of the
/// error are counted from there.  On success the table has `waves_count + 1`
/// entries, the last offset is `waves_len + 1`, and every variable with an
/// offset above zero has it within the waves region and a length above zero.
pub fn build_chain_table(position: &[u8], waves_count: usize, waves_len: usize, base: usize) -> (r:
    Result<(Vec<i64>, Vec<u32>), PositionError>)
    ensures
        match (r, spec_chain_table(position@, waves_count as nat, waves_len as nat, base as int)) {
            (Ok((offsets, lengths)), Ok((o, l))) => offsets@ == o && lengths@ == l,
            (Err(e), Err(f)) => e@ == f,
            _ => false,
        },
        match r {
            Ok((offsets, lengths)) => chain_table_valid(
                offsets@,
                lengths@,
                waves_count as nat,
                waves_len as nat,
            ),
            Err(_) => true,
        },
{
    if waves_count > u32::MAX as usize || waves_count > (isize::MAX as usize) / 8 {
        return Err(PositionError::new(base, FstFileParseErrorKind::LengthExceedsMachineWord));
    }
    let mut offsets: Vec<i64> = vec![0i64; waves_count + 1];
    let mut lengths: Vec<u32> = vec![0u32; waves_count + 1];
    let mut pval: i64 = 0;
    let mut pidx: usize = 0;
    let mut idx: usize = 0;
    let mut prev_alias: u32 = 0;
    let mut at: usize = 0;
    assert(offsets@ =~= chain_start(waves_count as nat).offsets);
    assert(lengths@ =~= chain_start(waves_count as nat).lengths);
    while at < position.len()
        invariant
            offsets@.len() == waves_count + 1,
            lengths@.len() == waves_count + 1,
            waves_count <= max_variables(),
            pidx <= idx <= waves_count + 1,
            pidx <= waves_count,
            0 <= pval,
            forall|i: int| 0 <= i < offsets@.len() ==> 0 <= #[trigger] offsets@[i] <= pval,
            chain_steps(chain_start(waves_count as nat), position@, 0, base as int) == chain_steps(
                state_of(offsets@, lengths@, pval, pidx, idx, prev_alias),
                position@,
                at as int,
                base as int,
            ),
        decreases position.len() - at,
    {
        let ghost st = state_of(offsets@, lengths@, pval, pidx, idx, prev_alias);
        if position[at] % 2 == 1 {
            let (next, v) = match SVarInt::parse_at(position, at) {
                Ok(got) => got,
                Err(e) => {
                    return Err(e.shifted(base));
                },
            };
            if idx > waves_count {
                return Err(PositionError::new(base, FstFileParseErrorKind::ChainTableMalformed));
            }
            let shval: i64 = if v.0 >= 0 {
                v.0 / 2
            } else {
                -((-(v.0 + 1)) / 2) - 1
            };
            assert(shval == v.0 as int / 2);
            if shval > 0 {
                if shval > i64::MAX - pval {
                    return Err(
                        PositionError::new(base, FstFileParseErrorKind::ChainTableMalformed),
                    );
                }
                pval = pval + shval;
                if idx != 0 {
                    let span: i64 = pval - offsets[pidx];
                    if span > u32::MAX as i64 {
                        return Err(
                            PositionError::new(base, FstFileParseErrorKind::ChainTableMalformed),
                        );
                    }
                    lengths.set(pidx, span as u32);
                }
                offsets.set(idx, pval);
                pidx = idx;
            } else if shval < 0 {
                let mark: u32 = alias_mark(shval);
                offsets.set(idx, 0);
                lengths.set(idx, mark);
                prev_alias = mark;
            } else {
                offsets.set(idx, 0);
                lengths.set(idx, prev_alias);
            }
            idx = idx + 1;
            at = next;
        } else {
            let (next, v) = match VarInt::parse_at(position, at) {
                Ok(got) => got,
                Err(e) => {
                    return Err(e.shifted(base));
                },
            };
            let run: u64 = v.0 / 2;
            if run > (waves_count + 1 - idx) as u64 {
                return Err(PositionError::new(base, FstFileParseErrorKind::ChainTableMalformed));
            }
            let end: usize = idx + run as usize;
            let ghost before = offsets@;
            while idx < end
                invariant
                    idx <= end <= waves_count + 1,
                    offsets@.len() == waves_count + 1,
                    0 <= pval,
                    forall|i: int| 0 <= i < offsets@.len() ==> 0 <= #[trigger] offsets@[i] <= pval,
                    offsets@ =~= Seq::new(
                        before.len(),
                        |i: int|
                            if st.idx <= i < idx {
                                0i64
                            } else {
                                before[i]
                            },
                    ),
                    st.idx <= idx,
                decreases end - idx,
            {
                offsets.set(idx, 0);
                idx = idx + 1;
            }
            at = next;
        }
    }
    if idx != waves_count || waves_len as u64 >= i64::MAX as u64 {
        return Err(PositionError::new(base, FstFileParseErrorKind::ChainTableMalformed));
    }
    offsets.set(idx, waves_len as i64 + 1);
    let last: i64 = offsets[idx] - offsets[pidx];
    if last < 0 || last > u32::MAX as i64 {
        return Err(PositionError::new(base, FstFileParseErrorKind::ChainTableMalformed));
    }
    lengths.set(pidx, last as u32);
    if !table_is_valid(&offsets, &lengths, waves_count, waves_len) {
        return Err(PositionError::new(base, FstFileParseErrorKind::ChainTableMalformed));
    }
    Ok((offsets, lengths))
}

} // verus!
