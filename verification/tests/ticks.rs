use minstant::coarse_now::{nanos_from_ticks, now};
use minstant::utils::{millis_to_u64, nanos_to_u64, secs_to_u64, timespec_to_u64};

#[test]
fn seconds_go_to_the_upper_half() {
    assert_eq!(secs_to_u64(0), 0);
    assert_eq!(secs_to_u64(1), 1 << 32);
    assert_eq!(secs_to_u64(0xffff_ffff), 0xffff_ffff_0000_0000);
}

#[test]
fn seconds_beyond_32_bits_lose_their_upper_bits() {
    assert_eq!(secs_to_u64(1 << 32), 0);
    assert_eq!(secs_to_u64((1 << 32) + 3), 3 << 32);
    assert_eq!(secs_to_u64(u64::MAX), 0xffff_ffff_0000_0000);
}

#[test]
fn timespec_scales_the_nanoseconds() {
    assert_eq!(timespec_to_u64(0, 0), 0);
    assert_eq!(timespec_to_u64(0, 1), 4);
    assert_eq!(timespec_to_u64(1, 500_000_000), 0x1_8000_0000);
    assert_eq!(timespec_to_u64(0, 999_999_999), 4_294_967_291);
    assert_eq!(timespec_to_u64((1 << 32) + 3, 250_000_000), 13_958_643_712);
}

#[test]
fn nanoseconds_split_into_seconds_and_rest() {
    assert_eq!(nanos_to_u64(0), 0);
    assert_eq!(nanos_to_u64(1_500_000_000), 0x1_8000_0000);
    assert_eq!(nanos_to_u64(999_999_999), 4_294_967_291);
    assert_eq!(nanos_to_u64(u64::MAX), timespec_to_u64(18_446_744_073, 709_551_615));
}

#[test]
fn milliseconds_use_the_multiplier() {
    assert_eq!(millis_to_u64(1), 4_294_867);
    assert_eq!(millis_to_u64(1000), 4_294_967_196);
    assert_eq!(millis_to_u64(16_777_215_996), 72_057_594_035_428_030);
}

#[test]
fn ticks_become_nanoseconds() {
    assert_eq!(nanos_from_ticks(0), 0);
    assert_eq!(nanos_from_ticks(1), 0);
    assert_eq!(nanos_from_ticks(5), 1);
    assert_eq!(nanos_from_ticks(1 << 32), 1_000_000_000);
    assert_eq!(nanos_from_ticks(3 << 31), 1_500_000_000);
    assert_eq!(nanos_from_ticks(u64::MAX), 4_294_967_295_999_999_999);
}

#[test]
fn more_ticks_are_never_fewer_nanoseconds() {
    let mut prev = 0;
    for ticks in [0u64, 1, 4, 5, 1 << 20, (1 << 32) - 1, 1 << 32, u64::MAX - 1, u64::MAX] {
        let nanos = nanos_from_ticks(ticks);
        assert!(nanos >= prev);
        prev = nanos;
    }
}

#[test]
fn ticks_of_a_timespec_give_its_nanoseconds_back() {
    assert_eq!(nanos_from_ticks(timespec_to_u64(1, 500_000_000)), 1_500_000_000);
    assert_eq!(nanos_from_ticks(nanos_to_u64(2_000_000_000)), 2_000_000_000);
}

#[test]
fn coarse_clock_stays_within_its_range() {
    assert!(now() <= 4_294_967_295_999_999_999);
}
