//! Conversions into the 32.32 fixed-point tick format of the coarse clock:
//! whole seconds in the upper 32 bits, a binary fraction of a second in the
//! lower 32 bits.

use vstd::prelude::*;

verus! {

/// Two to the power of 32: the number of ticks in one second.
pub open spec fn ticks_per_sec() -> int {
    0x1_0000_0000
}

/// Two to the power of 64.
pub open spec fn two_pow_64() -> int {
    0x1_0000_0000_0000_0000
}

/// The ticks of `secs` whole seconds. Seconds beyond 32 bits do not fit
/// the format: their upper bits are dropped.
pub open spec fn spec_secs_to_u64(secs: u64) -> u64 {
    ((secs as int * ticks_per_sec()) % two_pow_64()) as u64
}

/// Converts whole seconds to ticks.
pub fn secs_to_u64(secs: u64) -> (ticks: u64)
    ensures
        ticks == spec_secs_to_u64(secs),
        secs < ticks_per_sec() ==> ticks == secs * ticks_per_sec(),
{
    let ticks: u64 = secs << 32;
    assert(secs << 32 == ((secs as int * 0x1_0000_0000) % 0x1_0000_0000_0000_0000) as u64)
        by (bit_vector);
    ticks
}

/// The ticks of `secs` seconds and `nsecs` nanoseconds: the seconds in the
/// upper half, and below them the nanoseconds scaled by 2^32 / 10^9, as
/// the multiplier 9,223,372,037 and a shift by 31 bits approximate it.
pub open spec fn spec_timespec_to_u64(secs: u64, nsecs: u32) -> u64 {
    spec_secs_to_u64(secs) | ((nsecs as int * 0x2_25C1_7D05) / 0x8000_0000) as u64
}

/// Converts seconds and nanoseconds to ticks.
///
/// The scaled nanoseconds must fit 64 bits, which holds of every `nsecs`
/// below two seconds. Where the seconds fit 32 bits and the nanoseconds
/// are less than one second, the two halves do not overlap.
pub fn timespec_to_u64(secs: u64, nsecs: u32) -> (ticks: u64)
    requires
        nsecs as int * 0x2_25C1_7D05 <= u64::MAX,
    ensures
        ticks == spec_timespec_to_u64(secs, nsecs),
        secs < ticks_per_sec() && nsecs < 1_000_000_000 ==> ticks == secs * ticks_per_sec() + (
        nsecs as int * 0x2_25C1_7D05) / 0x8000_0000,
{
    let whole: u64 = secs_to_u64(secs);
    let scaled: u64 = nsecs as u64 * 0x2_25C1_7D05;
    let frac: u64 = scaled >> 31;
    assert(scaled >> 31 == scaled / 0x8000_0000) by (bit_vector);
    if secs < 0x1_0000_0000 && nsecs < 1_000_000_000 {
        assert(frac < 0x1_0000_0000);
        assert(whole | frac == whole + frac) by (bit_vector)
            requires
                whole == secs * 0x1_0000_0000,
                secs < 0x1_0000_0000,
                frac < 0x1_0000_0000,
        ;
    }
    whole | frac
}

/// The ticks of `nanos` nanoseconds.
pub open spec fn spec_nanos_to_u64(nanos: u64) -> u64 {
    spec_timespec_to_u64(nanos / 1_000_000_000, (nanos % 1_000_000_000) as u32)
}

/// Converts nanoseconds to ticks.
pub fn nanos_to_u64(nanos: u64) -> (ticks: u64)
    ensures
        ticks == spec_nanos_to_u64(nanos),
        nanos / 1_000_000_000 < ticks_per_sec() ==> ticks == (nanos / 1_000_000_000)
            * ticks_per_sec() + ((nanos % 1_000_000_000) * 0x2_25C1_7D05) / 0x8000_0000,
{
    let secs: u64 = nanos / 1_000_000_000;
    timespec_to_u64(secs, (nanos - secs * 1_000_000_000) as u32)
}

/// The ticks of `millis` milliseconds, as the multiplier 1,100,494,668, a
/// shift by 8 bits and a correction of 100 ticks approximate them.
pub open spec fn spec_millis_to_u64(millis: u64) -> int {
    (millis as int * 0x4189_374C) / 0x100 - 0x64
}

/// Converts milliseconds to ticks.
///
/// The product with the multiplier must fit 64 bits, and `millis` must not
/// be zero: the correction would lead below zero.
pub fn millis_to_u64(millis: u64) -> (ticks: u64)
    requires
        millis >= 1,
        millis as int * 0x4189_374C <= u64::MAX,
    ensures
        ticks == spec_millis_to_u64(millis),
{
    let scaled: u64 = millis * 0x4189_374C;
    assert(scaled >> 8 == scaled / 0x100) by (bit_vector);
    (scaled >> 8) - 0x64
}

} // verus!
