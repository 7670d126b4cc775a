use minstant::calibrate::{
    calibrate, conclude, converged, estimate_rate, zero_offset, Calibration, CalibrationError,
    Calibrator, Reading, Step, MAX_POLLS, MAX_WINDOWS, MIN_WINDOW_NANOS,
};

fn reading(nanos: u64, counter: u64) -> Reading {
    Reading { nanos, counter }
}

/// A counter that starts at `base` at time zero and advances three ticks
/// per nanosecond.
fn three_ghz(base: u64, nanos: u64) -> Reading {
    Reading { nanos, counter: base.wrapping_add(3 * nanos) }
}

#[test]
fn thirty_million_ticks_in_ten_milliseconds_are_three_gigahertz() {
    let start = reading(1_000, 500);
    let end = reading(1_000 + 10_000_000, 500 + 30_000_000);
    assert_eq!(estimate_rate(&start, &end), Some(3_000_000_000));
}

#[test]
fn estimate_rounds_to_nearest() {
    // 1 tick in 3 ns is a third of 10^9.
    assert_eq!(estimate_rate(&reading(0, 0), &reading(3, 1)), Some(333_333_333));
    // 2 ticks in 3 ns are two thirds of 10^9, rounded up.
    assert_eq!(estimate_rate(&reading(0, 0), &reading(3, 2)), Some(666_666_667));
    // 1 tick in 2_000_000_000 ns is exactly one half: rounded up to 1.
    assert_eq!(estimate_rate(&reading(0, 0), &reading(2_000_000_000, 1)), Some(1));
}

#[test]
fn estimate_needs_time_and_counter_to_advance() {
    assert_eq!(estimate_rate(&reading(5, 0), &reading(5, 10)), None);
    assert_eq!(estimate_rate(&reading(5, 0), &reading(4, 10)), None);
    assert_eq!(estimate_rate(&reading(0, 10), &reading(5, 10)), None);
    assert_eq!(estimate_rate(&reading(0, 10), &reading(5, 9)), None);
}

#[test]
fn estimate_that_rounds_to_zero_is_undefined() {
    assert_eq!(estimate_rate(&reading(0, 0), &reading(2_000_000_001, 1)), None);
}

#[test]
fn estimate_beyond_64_bits_is_undefined() {
    assert_eq!(estimate_rate(&reading(0, 0), &reading(1, u64::MAX)), None);
    assert_eq!(
        estimate_rate(&reading(0, 0), &reading(1_000_000_000, u64::MAX)),
        Some(u64::MAX)
    );
}

#[test]
fn convergence_is_below_one_part_in_a_hundred_thousand() {
    assert!(converged(3_000_000_000, 3_000_000_000));
    assert!(converged(3_000_000_000, 3_000_029_999));
    assert!(converged(3_000_029_999, 3_000_000_000));
    // 30_000 * 100_000 is exactly the current rate: not below.
    assert!(!converged(2_999_970_000, 3_000_000_000));
    assert!(!converged(3_000_030_001, 3_000_000_000));
    assert!(!converged(0, 3_000_000_000));
    assert!(!converged(0, 0));
}

#[test]
fn offset_projects_back_to_the_anchor() {
    // Anchor at 1_000 ns, where the counter stood at 7_000.
    let end = reading(1_000 + 20_000_000, 7_000 + 60_000_000);
    assert_eq!(zero_offset(3_000_000_000, 1_000, &end), 7_000);
}

#[test]
fn offset_rounds_the_projection() {
    // 1 Hz over 1.5 s projects 1.5 ticks, rounded up to 2.
    assert_eq!(zero_offset(1, 0, &reading(1_500_000_000, 10)), 8);
    // 1 Hz over 1.4 s projects 1.4 ticks, rounded down to 1.
    assert_eq!(zero_offset(1, 0, &reading(1_400_000_000, 10)), 9);
}

#[test]
fn offset_wraps_around() {
    let end = reading(1_000_000_000, 5);
    assert_eq!(zero_offset(10, 0, &end), u64::MAX - 4);
    // The projection itself wraps modulo 2^64.
    let far = reading(u64::MAX, 0);
    let projected = (u64::MAX as u128 * u64::MAX as u128 + 500_000_000) / 1_000_000_000;
    assert_eq!(zero_offset(u64::MAX, 0, &far), 0u64.wrapping_sub(projected as u64));
}

#[test]
fn offset_with_anchor_after_the_end_is_the_counter() {
    assert_eq!(zero_offset(3_000_000_000, 50, &reading(10, 1234)), 1234);
}

#[test]
fn counter_minus_offset_is_zero_at_the_anchor() {
    let anchor = three_ghz(u64::MAX - 100, 1_000);
    let end = three_ghz(u64::MAX - 100, 40_000_000);
    let offset = zero_offset(3_000_000_000, anchor.nanos, &end);
    assert_eq!(offset, anchor.counter);
    assert_eq!(anchor.counter.wrapping_sub(offset), 0);
    assert_eq!(end.counter.wrapping_sub(offset), 3 * (40_000_000 - 1_000));
}

#[test]
fn calibrator_walks_through_its_states() {
    let mut c = Calibrator::new();
    assert_eq!(c, Calibrator::Idle { previous_rate: 0, windows: 0 });
    let start = three_ghz(0, 100);
    assert_eq!(c.feed(start), Step::Continue);
    assert_eq!(c, Calibrator::Polling { start, previous_rate: 0, windows: 0, polls: 0 });
    // Exactly the minimum is not yet a window.
    assert_eq!(c.feed(three_ghz(0, 100 + MIN_WINDOW_NANOS)), Step::Continue);
    assert_eq!(c, Calibrator::Polling { start, previous_rate: 0, windows: 0, polls: 1 });
    // A clock that steps back does not close the window either.
    assert_eq!(c.feed(three_ghz(0, 50)), Step::Continue);
    assert_eq!(c, Calibrator::Polling { start, previous_rate: 0, windows: 0, polls: 2 });
    assert_eq!(c.feed(three_ghz(0, 101 + MIN_WINDOW_NANOS)), Step::Continue);
    assert_eq!(c, Calibrator::Idle { previous_rate: 3_000_000_000, windows: 1 });
    let second = three_ghz(0, 20_000_000);
    assert_eq!(c.feed(second), Step::Continue);
    let end = three_ghz(0, 31_000_000);
    let done = Step::Done { rate_hz: 3_000_000_000, end };
    assert_eq!(c.feed(end), done);
    assert_eq!(c, Calibrator::Finished { verdict: done });
    // A finished calibrator repeats its verdict.
    assert_eq!(c.feed(three_ghz(0, 90_000_000)), done);
    assert_eq!(c, Calibrator::Finished { verdict: done });
}

#[test]
fn calibrate_on_a_steady_counter() {
    let readings = [
        three_ghz(77, 1_000),
        three_ghz(77, 5_000_000),
        three_ghz(77, 11_000_001),
        three_ghz(77, 11_000_500),
        three_ghz(77, 22_000_000),
        three_ghz(77, 99_000_000),
    ];
    let anchor = three_ghz(77, 400);
    assert_eq!(
        calibrate(anchor.nanos, &readings),
        Ok(Calibration { rate_hz: 3_000_000_000, offset: anchor.counter })
    );
}

#[test]
fn two_calibrations_of_one_counter_agree() {
    let first = [
        three_ghz(0, 0),
        three_ghz(0, 10_000_001),
        three_ghz(0, 10_000_002),
        three_ghz(0, 20_000_003),
    ];
    let second = [
        three_ghz(0, 500_000_000),
        three_ghz(0, 512_345_678),
        three_ghz(0, 512_345_679),
        three_ghz(0, 530_000_000),
    ];
    let a = calibrate(0, &first).unwrap();
    let b = calibrate(0, &second).unwrap();
    assert_eq!(a.rate_hz, 3_000_000_000);
    assert_eq!(b.rate_hz, 3_000_000_000);
    assert!(converged(a.rate_hz, b.rate_hz));
}

#[test]
fn calibrate_without_enough_readings_is_incomplete() {
    assert_eq!(calibrate(0, &[]), Err(CalibrationError::Incomplete));
    assert_eq!(calibrate(0, &[three_ghz(0, 0)]), Err(CalibrationError::Incomplete));
    let one_window = [three_ghz(0, 0), three_ghz(0, 10_000_001)];
    assert_eq!(calibrate(0, &one_window), Err(CalibrationError::Incomplete));
}

#[test]
fn calibrate_on_a_stalled_counter_fails() {
    let readings = [reading(0, 100), reading(10_000_001, 100)];
    assert_eq!(calibrate(0, &readings), Err(CalibrationError::RateUndefined));
    let backwards = [reading(0, 100), reading(10_000_001, 99)];
    assert_eq!(calibrate(0, &backwards), Err(CalibrationError::RateUndefined));
}

#[test]
fn calibrate_gives_up_on_a_rate_that_keeps_changing() {
    // Each window runs one percent faster than the one before.
    let mut readings = Vec::new();
    let mut nanos: u64 = 0;
    let mut counter: u64 = 0;
    let mut per_window: u64 = 30_000_000;
    for _ in 0..MAX_WINDOWS {
        readings.push(reading(nanos, counter));
        nanos += 10_000_001;
        counter += per_window;
        readings.push(reading(nanos, counter));
        per_window += per_window / 100;
        nanos += 1;
    }
    assert_eq!(calibrate(0, &readings), Err(CalibrationError::NotConverged));
    // One window less, and the verdict is still open.
    readings.truncate(readings.len() - 1);
    assert_eq!(calibrate(0, &readings), Err(CalibrationError::Incomplete));
}

#[test]
fn readings_after_the_verdict_are_ignored() {
    let readings = [
        three_ghz(0, 0),
        three_ghz(0, 10_000_001),
        three_ghz(0, 10_000_002),
        three_ghz(0, 20_000_003),
        reading(20_000_004, 0),
        reading(40_000_000, 0),
    ];
    assert_eq!(
        calibrate(0, &readings),
        Ok(Calibration { rate_hz: 3_000_000_000, offset: 0 })
    );
}

#[test]
fn calibrator_gives_up_on_a_clock_that_stands_still() {
    let start = reading(1_000, 5);
    let mut c = Calibrator::Polling { start, previous_rate: 0, windows: 0, polls: MAX_POLLS - 2 };
    assert_eq!(c.feed(reading(1_000, 9)), Step::Continue);
    assert_eq!(
        c,
        Calibrator::Polling { start, previous_rate: 0, windows: 0, polls: MAX_POLLS - 1 }
    );
    let stalled = Step::Failed(CalibrationError::ClockStalled);
    assert_eq!(c.feed(reading(1_000, 12)), stalled);
    assert_eq!(c, Calibrator::Finished { verdict: stalled });
}

#[test]
fn last_poll_may_still_close_the_window() {
    let start = reading(0, 0);
    let mut c = Calibrator::Polling { start, previous_rate: 0, windows: 0, polls: MAX_POLLS - 1 };
    assert_eq!(c.feed(reading(10_000_001, 30_000_003)), Step::Continue);
    assert_eq!(c, Calibrator::Idle { previous_rate: 3_000_000_000, windows: 1 });
}

#[test]
fn last_window_may_still_converge() {
    let start = reading(0, 0);
    let mut c = Calibrator::Polling {
        start,
        previous_rate: 3_000_000_000,
        windows: MAX_WINDOWS - 1,
        polls: 0,
    };
    let end = reading(10_000_001, 30_000_003);
    assert_eq!(c.feed(end), Step::Done { rate_hz: 3_000_000_000, end });
    let mut c = Calibrator::Polling {
        start,
        previous_rate: 2_000_000_000,
        windows: MAX_WINDOWS - 1,
        polls: 0,
    };
    assert_eq!(c.feed(end), Step::Failed(CalibrationError::NotConverged));
}

#[test]
fn conclusion_of_each_verdict() {
    let end = reading(20_001_000, 60_007_000);
    assert_eq!(
        conclude(1_000, Step::Done { rate_hz: 3_000_000_000, end }),
        Ok(Calibration { rate_hz: 3_000_000_000, offset: 7_000 })
    );
    assert_eq!(conclude(1_000, Step::Continue), Err(CalibrationError::Incomplete));
    for e in [
        CalibrationError::RateUndefined,
        CalibrationError::NotConverged,
        CalibrationError::Incomplete,
        CalibrationError::WrongCore,
        CalibrationError::ClockStalled,
    ] {
        assert_eq!(conclude(1_000, Step::Failed(e)), Err(e));
    }
}
