use minstant::calibrate::{calibrate, Calibration, CalibrationError, Reading};
use minstant::clock::{ClockState, RawReading, ReadKind};
use minstant::cpu_list::parse_cpu_list_format;
use minstant::per_core::{build, BuildError, CoreReport, OffsetTable};
use minstant::stability::StabilityLevel;
use minstant::{current_cycle, is_tsc_available};

fn table() -> (u64, OffsetTable) {
    let reports = [
        Some(CoreReport {
            observed_core: 0,
            calibration: Calibration { rate_hz: 2_000_000_000, offset: 1_000 },
        }),
        Some(CoreReport {
            observed_core: 2,
            calibration: Calibration { rate_hz: 2_000_000_000, offset: u64::MAX - 9 },
        }),
    ];
    build(parse_cpu_list_format("0,2").unwrap(), &reports).unwrap()
}

fn per_core() -> ClockState {
    ClockState::from_per_core(Ok(table()))
}

#[test]
fn stable_state_subtracts_the_offset() {
    let state = ClockState::from_global(Ok(Calibration { rate_hz: 3_000_000_000, offset: 500 }));
    assert!(is_tsc_available(&state));
    assert_eq!(state.level(), StabilityLevel::GloballyStable);
    assert_eq!(state.read_kind(), ReadKind::Counter);
    assert_eq!(state.cycles_per_second(), 3_000_000_000);
    assert_eq!(state.nanos_per_cycle_ratio(), (1_000_000_000, 3_000_000_000));
    assert_eq!(state.now_cycles(RawReading::Counter { value: 500 }), 0);
    assert_eq!(state.now_cycles(RawReading::Counter { value: 1_700 }), 1_200);
    assert_eq!(state.now_cycles(RawReading::Counter { value: 499 }), u64::MAX);
}

#[test]
fn stable_state_rejects_other_readings() {
    let state = ClockState::Stable { rate_hz: 3_000_000_000, offset: 500 };
    assert_eq!(state.try_now_cycles(RawReading::Counter { value: 600 }), Some(100));
    assert_eq!(state.try_now_cycles(RawReading::Coarse { nanos: 600 }), None);
    assert_eq!(state.try_now_cycles(RawReading::CounterOnCore { value: 600, core: 0 }), None);
}

#[test]
fn per_core_state_subtracts_the_offset_of_the_core() {
    let state = per_core();
    assert!(is_tsc_available(&state));
    assert_eq!(state.level(), StabilityLevel::PerCoreStable);
    assert_eq!(state.read_kind(), ReadKind::CounterWithCore);
    assert_eq!(state.cycles_per_second(), 2_000_000_000);
    assert_eq!(state.nanos_per_cycle_ratio(), (1_000_000_000, 2_000_000_000));
    assert_eq!(state.now_cycles(RawReading::CounterOnCore { value: 1_500, core: 0 }), 500);
    assert_eq!(state.now_cycles(RawReading::CounterOnCore { value: 490, core: 2 }), 500);
}

#[test]
fn per_core_state_rejects_unknown_cores_and_other_readings() {
    let state = per_core();
    assert_eq!(state.try_now_cycles(RawReading::CounterOnCore { value: 1_500, core: 1 }), None);
    assert_eq!(state.try_now_cycles(RawReading::CounterOnCore { value: 1_500, core: 3 }), None);
    assert_eq!(state.try_now_cycles(RawReading::Counter { value: 1_500 }), None);
    assert_eq!(state.try_now_cycles(RawReading::Coarse { nanos: 1_500 }), None);
}

#[test]
fn unstable_state_passes_the_coarse_clock_through() {
    let state = ClockState::Unstable;
    assert!(!is_tsc_available(&state));
    assert_eq!(state.level(), StabilityLevel::Unstable);
    assert_eq!(state.read_kind(), ReadKind::Coarse);
    assert_eq!(state.nanos_per_cycle_ratio(), (1, 1));
    assert_eq!(state.now_cycles(RawReading::Coarse { nanos: 12_345 }), 12_345);
    assert_eq!(state.try_now_cycles(RawReading::Counter { value: 12_345 }), None);
}

#[test]
fn failed_calibrations_make_the_state_unstable() {
    for e in [
        CalibrationError::RateUndefined,
        CalibrationError::NotConverged,
        CalibrationError::Incomplete,
        CalibrationError::WrongCore,
        CalibrationError::ClockStalled,
    ] {
        assert!(!is_tsc_available(&ClockState::from_global(Err(e))));
    }
    assert!(!is_tsc_available(&ClockState::from_global(Ok(Calibration { rate_hz: 0, offset: 5 }))));
    for e in [BuildError::NoCores, BuildError::CoreFailed, BuildError::Inconsistent] {
        assert!(!is_tsc_available(&ClockState::from_per_core(Err(e))));
    }
}

#[test]
fn readings_taken_later_never_count_fewer_cycles() {
    let state = ClockState::Stable { rate_hz: 3_000_000_000, offset: u64::MAX - 5 };
    let mut prev = 0;
    for elapsed in [0u64, 1, 5, 6, 7, 1 << 40, u64::MAX] {
        let value = (u64::MAX - 5).wrapping_add(elapsed);
        let cycles = state.now_cycles(RawReading::Counter { value });
        assert_eq!(cycles, elapsed);
        assert!(cycles >= prev);
        prev = cycles;
    }
}

#[test]
fn cores_share_one_scale() {
    let state = per_core();
    // Core 2 runs ten ticks behind zero, core 0 a thousand ahead.
    let on_zero = state.now_cycles(RawReading::CounterOnCore { value: 1_000 + 70, core: 0 });
    let on_two = state.now_cycles(RawReading::CounterOnCore { value: 80 - 10, core: 2 });
    assert_eq!(on_zero, 70);
    assert_eq!(on_two, 80);
    assert!(on_two >= on_zero);
}

#[test]
fn fast_path_takes_the_reading_where_the_counter_is_used() {
    let state = ClockState::Stable { rate_hz: 3_000_000_000, offset: 500 };
    assert_eq!(current_cycle(&state, Some(RawReading::Counter { value: 1_700 })), Some(1_200));
    assert_eq!(current_cycle(&state, Some(RawReading::Coarse { nanos: 1_700 })), None);
    assert_eq!(current_cycle(&state, None), None);
    let state = per_core();
    assert_eq!(
        current_cycle(&state, Some(RawReading::CounterOnCore { value: 1_500, core: 0 })),
        Some(500)
    );
    assert_eq!(
        current_cycle(&state, Some(RawReading::CounterOnCore { value: 1_500, core: 1 })),
        None
    );
}

#[test]
fn fast_path_reads_the_coarse_clock_where_the_counter_is_not_used() {
    let state = ClockState::Unstable;
    let before = minstant::coarse_now::now();
    let cycles = current_cycle(&state, Some(RawReading::Counter { value: 3 })).unwrap();
    let after = minstant::coarse_now::now();
    assert!(before <= cycles && cycles <= after);
}

#[test]
fn three_gigahertz_from_readings_to_cycle_length() {
    // Two windows of 10 ms and a little, in each of which the counter
    // advances three ticks per nanosecond.
    let at = |nanos: u64| Reading { nanos, counter: 9_000 + 3 * nanos };
    let readings = [at(0), at(10_000_010), at(10_000_020), at(20_000_030)];
    let calibration = calibrate(0, &readings).unwrap();
    assert_eq!(calibration.rate_hz, 3_000_000_000);
    assert_eq!(calibration.offset, 9_000);
    let state = ClockState::from_global(Ok(calibration));
    let (nanos, cycles) = state.nanos_per_cycle_ratio();
    let nanos_per_cycle = nanos as f64 / cycles as f64;
    assert!((nanos_per_cycle - 0.3333).abs() < 0.0001);
    assert_eq!(state.now_cycles(RawReading::Counter { value: 9_000 + 300 }), 300);
}

#[test]
fn unstable_cycle_is_exactly_one_nanosecond() {
    let (nanos, cycles) = ClockState::Unstable.nanos_per_cycle_ratio();
    assert_eq!(nanos as f64 / cycles as f64, 1.0);
}
