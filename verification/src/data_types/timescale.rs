//! The unit of time of a file.

use vstd::prelude::*;
use crate::error::{PositionError, in_context};
use crate::primitives::{Outcome, agrees, be_i8_at, spec_be_i8};

verus! {

/// Time scale of the waveform: the number N stands for 10^N seconds.
#[derive(Debug, Clone, Copy, PartialEq, Eq)]
pub struct TimeScale(pub i8);

impl TimeScale {
    /// The time scale in the byte at `pos`.
    pub open spec fn spec_parse_at(s: Seq<u8>, pos: int) -> Outcome<TimeScale> {
        in_context(
            match spec_be_i8(s, pos) {
                Ok((next, v)) => Ok((next, TimeScale(v))),
                Err(f) => Err(f),
            },
            pos,
            "parse time scale",
        )
    }

    /// Reads the time scale at `pos`.
    pub fn parse_at(data: &[u8], pos: usize) -> (r: Result<(usize, TimeScale), PositionError>)
        ensures
            agrees(r, Self::spec_parse_at(data@, pos as int)),
    {
        match be_i8_at(data, pos) {
            Ok((next, v)) => Ok((next, TimeScale(v))),
            Err(e) => Err(e.context(pos, "parse time scale")),
        }
    }
}

} // verus!
