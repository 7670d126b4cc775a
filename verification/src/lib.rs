//! A process-wide, low-overhead source of monotonically increasing time,
//! built on a free-running hardware cycle counter.
//!
//! The crate holds the logic that decides whether the hardware counter can
//! be trusted, converts between counter ticks and nanoseconds, and corrects
//! the counter per execution core where only that much is guaranteed.
//! Reading the counter, the operating system's files and the wall clock is
//! left to the caller; the coarse fallback clock is read here.

use vstd::prelude::*;

pub mod calibrate;
pub mod clock;
pub mod coarse_now;
pub mod cpu_list;
pub mod duration;
pub mod init;
pub mod per_core;
pub mod stability;
pub mod utils;

pub use crate::clock::{ClockState, RawReading, ReadKind};
pub use crate::stability::StabilityLevel;

verus! {

/// Whether the cycle counter is in use: the machine was classified as
/// stable, globally or per core, and the calibration succeeded.
pub fn is_tsc_available(state: &ClockState) -> (available: bool)
    ensures
        available == !(state is Unstable),
{
    match state {
        ClockState::Unstable => false,
        _ => true,
    }
}

/// The fast path: the cycles since the anchor, in the unit of the clock's
/// source.
///
/// Where the counter is in use, `counter` is a fresh reading of it, of the
/// kind that the state needs, and the result is `None` if it is missing
/// or the state cannot interpret it. Where the counter is not in use,
/// `counter` is ignored and the coarse clock is read: the result then
/// depends on when the call is made, and is the nanoseconds of some count
/// of the coarse clock's ticks.
pub fn current_cycle(state: &ClockState, counter: Option<RawReading>) -> (cycles: Option<u64>)
    requires
        state.wf(),
    ensures
        state is Unstable ==> cycles is Some && exists|ticks: u64|
            cycles == Some(coarse_now::ticks_as_nanos(ticks)),
        !(state is Unstable) ==> cycles == match counter {
            Some(raw) if state.accepts(raw) => Some(state.cycles_of(raw)),
            _ => None::<u64>,
        },
{
    if is_tsc_available(state) {
        match counter {
            Some(raw) => state.try_now_cycles(raw),
            None => None,
        }
    } else {
        let nanos: u64 = coarse_now::now();
        let cycles: Option<u64> = state.try_now_cycles(RawReading::Coarse { nanos });
        cycles
    }
}

} // verus!
