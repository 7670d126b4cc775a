use minstant::clock::ClockState;
use minstant::coarse_now::now;
use minstant::cpu_list::parse_cpu_list_format;
use minstant::duration;
use minstant::{current_cycle, is_tsc_available};
use std::time;

#[test]
fn coarse_now_test_now() {
    let mut prev = now();
    for _ in 0..100 {
        let n = now();
        assert!(n >= prev);
        prev = n;
    }
}

#[test]
fn test_is_tsc_available() {
    let _ = is_tsc_available(&ClockState::Unstable);
}

#[test]
fn test_tsc_available() {
    let state = ClockState::Stable { rate_hz: 3_000_000_000, offset: 0 };
    if is_tsc_available(&state) {
        println!("TSC available")
    }
}

#[test]
fn lib_test_monotonic() {
    let state = ClockState::Unstable;
    let mut prev = 0;
    for _ in 0..10000 {
        let cur = current_cycle(&state, None).unwrap();
        assert!(cur >= prev);
        prev = cur;
    }
}

#[test]
fn lib_test_nanos_per_cycle() {
    let _ = ClockState::Unstable.nanos_per_cycle_ratio();
}

#[test]
fn test_test_nanos_per_cycle() {
    let state = ClockState::Stable { rate_hz: 3_000_000_000, offset: 0 };
    let _ = state.nanos_per_cycle_ratio();
}

#[test]
fn test_parse_list_format() {
    assert_eq!(
        parse_cpu_list_format("0-2,7,12-14\n").unwrap().into_vec(),
        &[0, 1, 2, 7, 12, 13, 14]
    );
    assert_eq!(
        parse_cpu_list_format("0-4,9\n").unwrap().into_vec(),
        &[0, 1, 2, 3, 4, 9]
    );
    assert_eq!(
        parse_cpu_list_format("0-15\n").unwrap().into_vec(),
        (0..=15).collect::<Vec<_>>()
    );
}

#[test]
fn test_duration_ty() {
    assert_eq!(
        duration::Duration::from(time::Duration::from_secs(114514)),
        duration::Duration::from_secs(114514)
    );
    assert_eq!(
        duration::Duration::from(time::Duration::from_millis(114514)),
        duration::Duration::from_millis(114514)
    );
    assert_eq!(
        duration::Duration::from(time::Duration::from_nanos(114514)),
        duration::Duration::from_nanos(114514)
    );
    assert_eq!(
        time::Duration::from_secs(114514).as_nanos(),
        duration::Duration::from_secs(114514).as_nanos()
    );
    assert_eq!(
        time::Duration::from_millis(114514).as_secs(),
        duration::Duration::from_millis(114514).as_secs()
    );
}
