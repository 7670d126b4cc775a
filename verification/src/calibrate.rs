//! The rate calibrator: estimates how many counter ticks pass per second
//! on one core and derives the counter value that marks the anchor instant.
//!
//! Reading the clock and the counter is left to the caller. The calibrator
//! is a state machine that is fed one [`Reading`] at a time and answers
//! whether it needs another one.

use vstd::prelude::*;

verus! {

/// Nanoseconds in one second.
pub const NANOS_PER_SEC: u64 = 1_000_000_000;

/// A measurement window must be longer than this many nanoseconds.
pub const MIN_WINDOW_NANOS: u64 = 10_000_000;

/// Two successive estimates agree when they differ by less than one part
/// in this many (0.001%).
pub const CONVERGENCE_PARTS: u64 = 100_000;

/// The number of measurement windows after which the calibrator gives up.
pub const MAX_WINDOWS: u32 = 64;

/// The number of readings inside one window after which the calibrator
/// gives up: the clock does not advance.
pub const MAX_POLLS: u32 = 0x4000_0000;

/// The monotonic clock and the cycle counter, read as close to the same
/// instant as achievable.
#[derive(Clone, Copy, Debug, PartialEq, Eq, Structural)]
pub struct Reading {
    /// Monotonic time in nanoseconds since an origin fixed for the process.
    pub nanos: u64,
    /// The raw value of the cycle counter.
    pub counter: u64,
}

/// The outcome of a calibration on one core.
#[derive(Clone, Copy, Debug, PartialEq, Eq, Structural)]
pub struct Calibration {
    /// Counter ticks per second. Never zero.
    pub rate_hz: u64,
    /// The counter value that corresponds to the anchor instant.
    pub offset: u64,
}

/// Why a calibration produced no rate.
#[derive(Clone, Copy, Debug, PartialEq, Eq, Structural)]
pub enum CalibrationError {
    /// Over a full window the counter did not advance, or advanced at a
    /// rate that rounds to zero or exceeds 64 bits.
    RateUndefined,
    /// The estimate still changed after [`MAX_WINDOWS`] windows.
    NotConverged,
    /// The readings ended before the calibrator reached a verdict.
    Incomplete,
    /// A reading was taken on another core than the one under calibration.
    WrongCore,
    /// After [`MAX_POLLS`] readings a window was still not longer than
    /// [`MIN_WINDOW_NANOS`].
    ClockStalled,
}

/// What the calibrator asks for after a reading.
#[derive(Clone, Copy, Debug, PartialEq, Eq, Structural)]
pub enum Step {
    /// Take another reading and feed it.
    Continue,
    /// The estimate has converged; `end` is the reading that closed the
    /// last window.
    Done { rate_hz: u64, end: Reading },
    /// The calibration is abandoned.
    Failed(CalibrationError),
}

/// `num / den`, rounded to the nearest integer, halves rounded up.
pub open spec fn round_div(num: nat, den: nat) -> nat
    recommends
        den > 0,
{
    num / den + if 2 * (num % den) >= den {
        1nat
    } else {
        0nat
    }
}

/// The nanoseconds that passed from `start` to `end`; zero if the clock
/// did not advance.
pub open spec fn elapsed_nanos(start: Reading, end: Reading) -> nat {
    if end.nanos >= start.nanos {
        (end.nanos - start.nanos) as nat
    } else {
        0
    }
}

/// Ticks per second over the window from `start` to `end`:
/// the counter's advance times 10^9, divided by the elapsed nanoseconds.
pub open spec fn window_rate(start: Reading, end: Reading) -> nat
    recommends
        end.counter >= start.counter,
        end.nanos > start.nanos,
{
    round_div(
        ((end.counter - start.counter) * NANOS_PER_SEC) as nat,
        elapsed_nanos(start, end),
    )
}

/// Whether the window from `start` to `end` yields a usable rate: time and
/// counter both advanced, and the rate is at least 1 and fits 64 bits.
pub open spec fn rate_defined(start: Reading, end: Reading) -> bool {
    &&& end.nanos > start.nanos
    &&& end.counter > start.counter
    &&& 1 <= window_rate(start, end) <= u64::MAX
}

/// Whether `current` differs from `previous` by less than 0.001% of
/// `current`.
pub open spec fn rates_agree(previous: u64, current: u64) -> bool {
    let delta = if current >= previous {
        current - previous
    } else {
        previous - current
    };
    delta * CONVERGENCE_PARTS < current
}

/// The ticks that a counter running at `rate_hz` advances in `nanos`
/// nanoseconds, rounded to the nearest tick.
pub open spec fn projected_ticks(rate_hz: u64, nanos: nat) -> nat {
    round_div(rate_hz as nat * nanos, NANOS_PER_SEC as nat)
}

/// The counter value at the anchor instant: the counter at `end`, moved
/// back by the ticks that pass between `anchor_nanos` and `end.nanos`,
/// modulo 2^64.
pub open spec fn anchor_offset(rate_hz: u64, anchor_nanos: u64, end: Reading) -> u64 {
    let back = projected_ticks(
        rate_hz,
        if end.nanos >= anchor_nanos {
            (end.nanos - anchor_nanos) as nat
        } else {
            0
        },
    );
    end.counter.wrapping_sub((back % 0x1_0000_0000_0000_0000) as u64)
}

proof fn lemma_div_halves(num: nat, den: nat)
    by (nonlinear_arith)
    requires
        den >= 2,
    ensures
        2 * (num / den) <= num,
{
}

/// Rounded division on machine integers.
fn div_rounded(num: u128, den: u128) -> (q: u128)
    requires
        den > 0,
    ensures
        q == round_div(num as nat, den as nat),
{
    let whole: u128 = num / den;
    let rest: u128 = num % den;
    if rest >= den - rest {
        proof {
            // A remainder of at least half the divisor needs a divisor of
            // two or more, so the quotient leaves room for one more.
            lemma_div_halves(num as nat, den as nat);
        }
        whole + 1
    } else {
        whole
    }
}

/// Estimates the counter's rate over one window.
///
/// Returns the rate exactly when [`rate_defined`] holds of the window.
pub fn estimate_rate(start: &Reading, end: &Reading) -> (rate: Option<u64>)
    ensures
        rate == if rate_defined(*start, *end) {
            Some(window_rate(*start, *end) as u64)
        } else {
            None
        },
{
    if end.nanos <= start.nanos || end.counter <= start.counter {
        return None;
    }
    let ticks: u128 = (end.counter - start.counter) as u128;
    let elapsed: u128 = (end.nanos - start.nanos) as u128;
    let rate: u128 = div_rounded(ticks * 1_000_000_000u128, elapsed);
    if rate == 0 || rate > u64::MAX as u128 {
        None
    } else {
        Some(rate as u64)
    }
}

/// Tests two successive estimates for convergence.
pub fn converged(previous: u64, current: u64) -> (agree: bool)
    ensures
        agree == rates_agree(previous, current),
{
    let delta: u64 = if current >= previous {
        current - previous
    } else {
        previous - current
    };
    (delta as u128) * 100_000u128 < current as u128
}

/// Computes the counter value that corresponds to the anchor instant.
///
/// Subtracting the result from a later counter value, with wraparound,
/// gives the ticks elapsed since the anchor.
pub fn zero_offset(rate_hz: u64, anchor_nanos: u64, end: &Reading) -> (offset: u64)
    ensures
        offset == anchor_offset(rate_hz, anchor_nanos, *end),
{
    let since_anchor: u64 = if end.nanos >= anchor_nanos {
        end.nanos - anchor_nanos
    } else {
        0
    };
    assert((rate_hz as nat) * (since_anchor as nat) <= u128::MAX) by (nonlinear_arith)
        requires
            rate_hz <= u64::MAX,
            since_anchor <= u64::MAX,
    ;
    let product: u128 = (rate_hz as u128) * (since_anchor as u128);
    let back: u128 = div_rounded(product, 1_000_000_000u128);
    let low: u128 = back % 0x1_0000_0000_0000_0000u128;
    end.counter.wrapping_sub(low as u64)
}

/// The state of a calibration between readings.
#[derive(Clone, Copy, Debug, PartialEq, Eq, Structural)]
pub enum Calibrator {
    /// Waiting for the reading that opens the next window.
    Idle { previous_rate: u64, windows: u32 },
    /// Inside a window that `start` opened, after `polls` further readings.
    Polling { start: Reading, previous_rate: u64, windows: u32, polls: u32 },
    /// A verdict was reached; further readings change nothing.
    Finished { verdict: Step },
}

impl Calibrator {
    /// The calibrator before its first reading.
    pub open spec fn initial() -> Calibrator {
        Calibrator::Idle { previous_rate: 0, windows: 0 }
    }

    /// Well-formedness: the counts of windows and of readings stay below
    /// their limits, and a finished calibrator holds a verdict, with a
    /// positive rate if it converged.
    pub open spec fn wf(self) -> bool {
        match self {
            Calibrator::Idle { windows, .. } => windows < MAX_WINDOWS,
            Calibrator::Polling { windows, polls, .. } => windows < MAX_WINDOWS && polls
                < MAX_POLLS,
            Calibrator::Finished { verdict } => match verdict {
                Step::Continue => false,
                Step::Done { rate_hz, .. } => rate_hz > 0,
                Step::Failed(_) => true,
            },
        }
    }

    /// What closing a window with `end` leads to, given the estimate of
    /// the window before and the number of windows closed so far.
    pub open spec fn close_window(
        start: Reading,
        end: Reading,
        previous_rate: u64,
        windows: u32,
    ) -> (Calibrator, Step) {
        if !rate_defined(start, end) {
            let verdict = Step::Failed(CalibrationError::RateUndefined);
            (Calibrator::Finished { verdict }, verdict)
        } else {
            let rate = window_rate(start, end) as u64;
            if rates_agree(previous_rate, rate) {
                let verdict = Step::Done { rate_hz: rate, end };
                (Calibrator::Finished { verdict }, verdict)
            } else if windows + 1 >= MAX_WINDOWS {
                let verdict = Step::Failed(CalibrationError::NotConverged);
                (Calibrator::Finished { verdict }, verdict)
            } else {
                (
                    Calibrator::Idle { previous_rate: rate, windows: (windows + 1) as u32 },
                    Step::Continue,
                )
            }
        }
    }

    /// The transition: the state after `reading`, and what is asked next.
    ///
    /// - An idle calibrator opens a window with the reading.
    /// - Inside a window, a reading no more than [`MIN_WINDOW_NANOS`] after
    ///   the window's start is counted, and ends the calibration if it is
    ///   one too many; a later one closes the window.
    /// - A finished calibrator repeats its verdict.
    pub open spec fn next(self, reading: Reading) -> (Calibrator, Step) {
        match self {
            Calibrator::Idle { previous_rate, windows } => (
                Calibrator::Polling { start: reading, previous_rate, windows, polls: 0 },
                Step::Continue,
            ),
            Calibrator::Polling { start, previous_rate, windows, polls } => {
                if elapsed_nanos(start, reading) > MIN_WINDOW_NANOS {
                    Self::close_window(start, reading, previous_rate, windows)
                } else if polls + 1 >= MAX_POLLS {
                    let verdict = Step::Failed(CalibrationError::ClockStalled);
                    (Calibrator::Finished { verdict }, verdict)
                } else {
                    (
                        Calibrator::Polling {
                            start,
                            previous_rate,
                            windows,
                            polls: (polls + 1) as u32,
                        },
                        Step::Continue,
                    )
                }
            },
            Calibrator::Finished { verdict } => (self, verdict),
        }
    }

    /// The verdict after feeding `readings` in order, starting from this
    /// state: the first answer other than [`Step::Continue`], or
    /// [`Step::Continue`] if the readings end before one.
    pub open spec fn run(self, readings: Seq<Reading>) -> Step
        decreases readings.len(),
    {
        if readings.len() == 0 {
            Step::Continue
        } else {
            let (after, step) = self.next(readings[0]);
            if step is Continue {
                after.run(readings.skip(1))
            } else {
                step
            }
        }
    }

    /// Starts a calibration.
    pub fn new() -> (calibrator: Calibrator)
        ensures
            calibrator == Calibrator::initial(),
            calibrator.wf(),
    {
        Calibrator::Idle { previous_rate: 0, windows: 0 }
    }

    /// Takes one reading and says what to do next.
    pub fn feed(&mut self, reading: Reading) -> (step: Step)
        requires
            old(self).wf(),
        ensures
            (*final(self), step) == old(self).next(reading),
            final(self).wf(),
            step is Done ==> step->rate_hz > 0,
            !(step is Continue) ==> *final(self) == (Calibrator::Finished { verdict: step }),
    {
        match *self {
            Calibrator::Idle { previous_rate, windows } => {
                *self = Calibrator::Polling { start: reading, previous_rate, windows, polls: 0 };
                Step::Continue
            },
            Calibrator::Polling { start, previous_rate, windows, polls } => {
                if reading.nanos <= start.nanos || reading.nanos - start.nanos
                    <= MIN_WINDOW_NANOS {
                    if polls + 1 >= MAX_POLLS {
                        let verdict: Step = Step::Failed(CalibrationError::ClockStalled);
                        *self = Calibrator::Finished { verdict };
                        return verdict;
                    }
                    *self = Calibrator::Polling {
                        start,
                        previous_rate,
                        windows,
                        polls: polls + 1,
                    };
                    return Step::Continue;
                }
                let verdict: Step = match estimate_rate(&start, &reading) {
                    None => Step::Failed(CalibrationError::RateUndefined),
                    Some(rate) => {
                        if converged(previous_rate, rate) {
                            Step::Done { rate_hz: rate, end: reading }
                        } else if windows + 1 >= MAX_WINDOWS {
                            Step::Failed(CalibrationError::NotConverged)
                        } else {
                            *self = Calibrator::Idle { previous_rate: rate, windows: windows + 1 };
                            return Step::Continue;
                        }
                    },
                };
                *self = Calibrator::Finished { verdict };
                verdict
            },
            Calibrator::Finished { verdict } => verdict,
        }
    }
}

/// What a calibration against `anchor_nanos` amounts to when it stops at
/// `step`: the converged rate together with the offset of the anchor, or
/// the reason why there is none. A calibration that still asks for
/// readings is incomplete.
pub open spec fn conclusion(anchor_nanos: u64, step: Step) -> Result<Calibration, CalibrationError> {
    match step {
        Step::Continue => Err(CalibrationError::Incomplete),
        Step::Done { rate_hz, end } => Ok(
            Calibration { rate_hz, offset: anchor_offset(rate_hz, anchor_nanos, end) },
        ),
        Step::Failed(e) => Err(e),
    }
}

/// The result of calibrating against `anchor_nanos` over recorded
/// `readings`.
pub open spec fn calibration_of(anchor_nanos: u64, readings: Seq<Reading>) -> Result<
    Calibration,
    CalibrationError,
> {
    conclusion(anchor_nanos, Calibrator::initial().run(readings))
}

/// Concludes a calibration that stopped at `step`.
pub fn conclude(anchor_nanos: u64, step: Step) -> (result: Result<Calibration, CalibrationError>)
    ensures
        result == conclusion(anchor_nanos, step),
{
    match step {
        Step::Continue => Err(CalibrationError::Incomplete),
        Step::Done { rate_hz, end } => Ok(
            Calibration { rate_hz, offset: zero_offset(rate_hz, anchor_nanos, &end) },
        ),
        Step::Failed(e) => Err(e),
    }
}

/// Runs the calibrator over recorded readings.
///
/// Readings after the one that settles the calibration are ignored.
pub fn calibrate(anchor_nanos: u64, readings: &[Reading]) -> (result: Result<
    Calibration,
    CalibrationError,
>)
    ensures
        result == calibration_of(anchor_nanos, readings@),
        result matches Ok(c) ==> c.rate_hz > 0,
{
    let mut calibrator: Calibrator = Calibrator::new();
    let mut i: usize = 0;
    assert(readings@.skip(0) =~= readings@);
    while i < readings.len()
        invariant
            i <= readings.len(),
            calibrator.wf(),
            Calibrator::initial().run(readings@) == calibrator.run(readings@.skip(i as int)),
        decreases readings.len() - i,
    {
        let ghost rest = readings@.skip(i as int);
        assert(rest[0] == readings@[i as int]);
        assert(rest.skip(1) == readings@.skip(i + 1));
        let step: Step = calibrator.feed(readings[i]);
        match step {
            Step::Continue => {},
            _ => {
                return conclude(anchor_nanos, step);
            },
        }
        i += 1;
    }
    assert(readings@.skip(i as int).len() == 0);
    Err(CalibrationError::Incomplete)
}

impl Calibrator {
    /// The number of readings after which a verdict is certain, whatever
    /// the readings hold: one for each reading that each of the windows
    /// left may still take.
    pub open spec fn readings_left(self) -> nat {
        match self {
            Calibrator::Idle { windows, .. } => ((MAX_WINDOWS - windows) * (MAX_POLLS + 1)
                + 1) as nat,
            Calibrator::Polling { windows, polls, .. } => ((MAX_WINDOWS - windows) * (MAX_POLLS
                + 1) - polls) as nat,
            Calibrator::Finished { .. } => 1,
        }
    }

    /// Bounded duration: a calibration reaches its verdict after at most
    /// [`Calibrator::readings_left`] readings, whatever they hold.
    pub proof fn lemma_run_terminates(self, readings: Seq<Reading>)
        requires
            self.wf(),
            readings.len() >= self.readings_left(),
        ensures
            !(self.run(readings) is Continue),
        decreases readings.len(),
    {
        assert(MAX_WINDOWS == 64 && MAX_POLLS == 0x4000_0000);
        let (after, step) = self.next(readings[0]);
        if step is Continue {
            after.lemma_run_terminates(readings.skip(1));
        }
    }
}

/// Whether `r` lies on the line of a counter that passes through `origin`
/// and advances exactly `rate_hz` ticks per second, without wrapping.
pub open spec fn on_exact_counter(r: Reading, origin: Reading, rate_hz: u64) -> bool {
    &&& r.nanos >= origin.nanos
    &&& r.counter >= origin.counter
    &&& (r.counter - origin.counter) * NANOS_PER_SEC == rate_hz * (r.nanos - origin.nanos)
}

/// A multiple of the divisor divides without rest, so rounding changes
/// nothing.
proof fn lemma_round_div_multiple(rate: nat, elapsed: nat)
    requires
        elapsed > 0,
    ensures
        round_div(rate * elapsed, elapsed) == rate,
{
    vstd::arithmetic::div_mod::lemma_div_by_multiple(rate as int, elapsed as int);
    vstd::arithmetic::div_mod::lemma_mod_multiples_basic(rate as int, elapsed as int);
    assert((rate * elapsed) as int == rate as int * elapsed as int);
}

/// Over any window of a counter that advances exactly `rate_hz` ticks per
/// second, the estimate is `rate_hz`.
pub proof fn lemma_exact_counter_rate(start: Reading, end: Reading, origin: Reading, rate_hz: u64)
    requires
        rate_hz >= 1,
        on_exact_counter(start, origin, rate_hz),
        on_exact_counter(end, origin, rate_hz),
        end.nanos > start.nanos,
    ensures
        rate_defined(start, end),
        window_rate(start, end) == rate_hz,
{
    let elapsed = (end.nanos - start.nanos) as nat;
    let ticks = end.counter - start.counter;
    assert(ticks * NANOS_PER_SEC == rate_hz * elapsed && ticks > 0) by (nonlinear_arith)
        requires
            ticks == end.counter - start.counter,
            elapsed == end.nanos - start.nanos,
            elapsed > 0,
            rate_hz >= 1,
            (end.counter - origin.counter) * 1_000_000_000 == rate_hz * (end.nanos
                - origin.nanos),
            (start.counter - origin.counter) * 1_000_000_000 == rate_hz * (start.nanos
                - origin.nanos),
    ;
    lemma_round_div_multiple(rate_hz as nat, elapsed);
}

/// A rate agrees with itself, unless it is zero.
pub proof fn lemma_equal_rates_agree(rate_hz: u64)
    requires
        rate_hz >= 1,
    ensures
        rates_agree(rate_hz, rate_hz),
{
}

/// On a counter that advances exactly `rate_hz` ticks per second, a
/// calibration that converges does so on `rate_hz` and at a reading of
/// that counter, from whatever state it sets out.
pub proof fn lemma_run_on_exact_counter(
    state: Calibrator,
    readings: Seq<Reading>,
    origin: Reading,
    rate_hz: u64,
)
    requires
        rate_hz >= 1,
        forall|i: int| 0 <= i < readings.len() ==> on_exact_counter(readings[i], origin, rate_hz),
        state matches Calibrator::Polling { start, .. } ==> on_exact_counter(
            start,
            origin,
            rate_hz,
        ),
        state matches Calibrator::Finished { verdict: Step::Done { rate_hz: found, end } } ==> found
            == rate_hz && on_exact_counter(end, origin, rate_hz),
    ensures
        state.run(readings) matches Step::Done { rate_hz: found, end } ==> found == rate_hz
            && on_exact_counter(end, origin, rate_hz),
    decreases readings.len(),
{
    if readings.len() > 0 {
        let (after, step) = state.next(readings[0]);
        if let Calibrator::Polling { start, .. } = state {
            if elapsed_nanos(start, readings[0]) > MIN_WINDOW_NANOS {
                lemma_exact_counter_rate(start, readings[0], origin, rate_hz);
            }
        }
        if step is Continue {
            lemma_run_on_exact_counter(after, readings.skip(1), origin, rate_hz);
        }
    }
}

/// Convergence: two calibrations of a counter that advances exactly
/// `rate_hz` ticks per second, each over its own readings and against its
/// own anchor, yield the same rate, which is `rate_hz`.
pub proof fn lemma_calibrations_agree(
    first_anchor: u64,
    first: Seq<Reading>,
    second_anchor: u64,
    second: Seq<Reading>,
    origin: Reading,
    rate_hz: u64,
)
    requires
        rate_hz >= 1,
        forall|i: int| 0 <= i < first.len() ==> on_exact_counter(first[i], origin, rate_hz),
        forall|i: int| 0 <= i < second.len() ==> on_exact_counter(second[i], origin, rate_hz),
        calibration_of(first_anchor, first) is Ok,
        calibration_of(second_anchor, second) is Ok,
    ensures
        calibration_of(first_anchor, first)->Ok_0.rate_hz == rate_hz,
        calibration_of(second_anchor, second)->Ok_0.rate_hz == rate_hz,
        rates_agree(
            calibration_of(first_anchor, first)->Ok_0.rate_hz,
            calibration_of(second_anchor, second)->Ok_0.rate_hz,
        ),
{
    lemma_run_on_exact_counter(Calibrator::initial(), first, origin, rate_hz);
    lemma_run_on_exact_counter(Calibrator::initial(), second, origin, rate_hz);
}

/// Offset correctness of a whole calibration: on a counter that passes
/// through the anchor and advances exactly `rate_hz` ticks per second, a
/// calibration that converges finds `rate_hz` and, as the offset, the
/// counter's value at the anchor.
pub proof fn lemma_calibration_recovers_anchor(
    anchor: Reading,
    readings: Seq<Reading>,
    rate_hz: u64,
)
    requires
        rate_hz >= 1,
        forall|i: int| 0 <= i < readings.len() ==> on_exact_counter(readings[i], anchor, rate_hz),
        calibration_of(anchor.nanos, readings) is Ok,
    ensures
        calibration_of(anchor.nanos, readings) == Ok::<Calibration, CalibrationError>(
            Calibration { rate_hz, offset: anchor.counter },
        ),
{
    lemma_run_on_exact_counter(Calibrator::initial(), readings, anchor, rate_hz);
    let end = Calibrator::initial().run(readings)->end;
    let since = (end.nanos - anchor.nanos) as nat;
    let ticks = (end.counter - anchor.counter) as nat;
    assert(rate_hz as nat * since == ticks * 1_000_000_000) by (nonlinear_arith)
        requires
            ticks * NANOS_PER_SEC == rate_hz * since,
            NANOS_PER_SEC == 1_000_000_000,
    ;
    lemma_round_div_multiple(ticks, 1_000_000_000);
    assert(projected_ticks(rate_hz, since) == ticks);
}

/// Offset correctness: if between the anchor and `end` the counter
/// advanced by the ticks that `rate_hz` projects for that time, with
/// wraparound, then the offset is the counter's value at the anchor, so
/// that the counter minus the offset is zero at the anchor instant.
pub proof fn lemma_offset_recovers_anchor(rate_hz: u64, anchor: Reading, end: Reading)
    requires
        end.nanos >= anchor.nanos,
        end.counter == anchor.counter.wrapping_add(
            (projected_ticks(rate_hz, (end.nanos - anchor.nanos) as nat)
                % 0x1_0000_0000_0000_0000) as u64,
        ),
    ensures
        anchor_offset(rate_hz, anchor.nanos, end) == anchor.counter,
        anchor.counter.wrapping_sub(anchor_offset(rate_hz, anchor.nanos, end)) == 0,
{
}

/// The counter minus the offset counts the ticks since the anchor: a
/// reading whose counter lies `since` ticks beyond the offset stands for
/// `since`, whatever the offset and with wraparound.
pub proof fn lemma_offset_counts_ticks(offset: u64, since: u64)
    ensures
        offset.wrapping_add(since).wrapping_sub(offset) == since,
{
}

} // verus!
