//! The coarse fallback clock: a monotonic clock that is cheap to read and
//! less precise than the cycle counter.
//!
//! The clock counts in ticks of 2^-32 seconds (see [`crate::utils`]).

use vstd::prelude::*;

verus! {

/// The whole nanoseconds in `ticks` ticks of 2^-32 seconds: `ticks` times
/// 10^9 over 2^32, rounded down.
pub open spec fn ticks_as_nanos(ticks: u64) -> u64 {
    (ticks as nat * 125_000_000 / 0x2000_0000) as u64
}

/// Reads the coarse clock: `coarsetime::Instant::now_without_cache_update`,
/// as ticks.
///
/// Nothing is claimed of the value: it depends on when the call is made.
#[verifier::external_body]
fn read_coarse_ticks() -> (ticks: u64) {
    coarsetime::Instant::now_without_cache_update().as_ticks()
}

/// Converts ticks to nanoseconds: `coarsetime::Duration::as_nanos`, on the
/// duration of `ticks` ticks.
///
/// The claim is the formula of that function: the ticks times 125,000,000,
/// shifted right by 29 bits.
#[verifier::external_body]
fn coarse_ticks_as_nanos(ticks: u64) -> (nanos: u64)
    ensures
        nanos == ticks_as_nanos(ticks),
{
    coarsetime::Duration::from_ticks(ticks).as_nanos()
}

/// More ticks never make fewer nanoseconds.
pub proof fn lemma_ticks_as_nanos_monotonic(earlier: u64, later: u64)
    requires
        earlier <= later,
    ensures
        ticks_as_nanos(earlier) <= ticks_as_nanos(later),
{
    let a = earlier as nat * 125_000_000;
    let b = later as nat * 125_000_000;
    assert(a / 0x2000_0000 <= b / 0x2000_0000) by (nonlinear_arith)
        requires
            a <= b,
    ;
    assert(b / 0x2000_0000 <= u64::MAX) by (nonlinear_arith)
        requires
            b <= u64::MAX * 125_000_000,
    ;
}

/// The nanoseconds in `ticks` ticks of the coarse clock.
pub fn nanos_from_ticks(ticks: u64) -> (nanos: u64)
    ensures
        nanos == ticks_as_nanos(ticks),
{
    coarse_ticks_as_nanos(ticks)
}

/// The coarse clock in nanoseconds.
///
/// The value depends on when the call is made; whatever it is, it is the
/// nanoseconds of some count of ticks.
pub fn now() -> (nanos: u64)
    ensures
        exists|ticks: u64| nanos == ticks_as_nanos(ticks),
        nanos <= ticks_as_nanos(u64::MAX),
{
    let ticks: u64 = read_coarse_ticks();
    proof {
        lemma_ticks_as_nanos_monotonic(ticks, u64::MAX);
    }
    nanos_from_ticks(ticks)
}

} // verus!
