//! The clock state of a process: what the classification and the
//! calibration established, and the fast path that turns a raw reading
//! into cycles since the anchor.
//!
//! The state is built once and never changed. Reading the counter or the
//! fallback clock is left to the caller.

use crate::calibrate::{Calibration, CalibrationError, NANOS_PER_SEC};
use crate::per_core::{BuildError, OffsetTable};
use crate::stability::StabilityLevel;
use vstd::prelude::*;

verus! {

/// What a process knows about its cycle counter.
#[derive(Debug)]
pub enum ClockState {
    /// One offset serves every core.
    Stable { rate_hz: u64, offset: u64 },
    /// Each core has its own offset.
    PerCoreStable { rate_hz: u64, offsets: OffsetTable },
    /// The counter is not used; all reads go to the coarse clock.
    Unstable,
}

/// What the fast path has to read.
#[derive(Clone, Copy, Debug, PartialEq, Eq, Structural)]
pub enum ReadKind {
    /// The cycle counter.
    Counter,
    /// The cycle counter together with the core it was read on.
    CounterWithCore,
    /// The coarse clock.
    Coarse,
}

/// A raw reading of one of the clock's sources.
#[derive(Clone, Copy, Debug, PartialEq, Eq, Structural)]
pub enum RawReading {
    /// The value of the cycle counter.
    Counter { value: u64 },
    /// The value of the cycle counter and the core it was read on, both
    /// from one instruction.
    CounterOnCore { value: u64, core: usize },
    /// The nanoseconds of the coarse clock.
    Coarse { nanos: u64 },
}

impl RawReading {
    /// The kind of this reading.
    pub open spec fn kind(self) -> ReadKind {
        match self {
            RawReading::Counter { .. } => ReadKind::Counter,
            RawReading::CounterOnCore { .. } => ReadKind::CounterWithCore,
            RawReading::Coarse { .. } => ReadKind::Coarse,
        }
    }
}

impl ClockState {
    /// Well-formedness: a state that uses the counter has a positive rate,
    /// and its table, if it has one, is well-formed.
    pub open spec fn wf(&self) -> bool {
        match self {
            ClockState::Stable { rate_hz, .. } => *rate_hz > 0,
            ClockState::PerCoreStable { rate_hz, offsets } => *rate_hz > 0 && offsets.wf(),
            ClockState::Unstable => true,
        }
    }

    /// The level of trust that this state stands for.
    pub open spec fn spec_level(&self) -> StabilityLevel {
        match self {
            ClockState::Stable { .. } => StabilityLevel::GloballyStable,
            ClockState::PerCoreStable { .. } => StabilityLevel::PerCoreStable,
            ClockState::Unstable => StabilityLevel::Unstable,
        }
    }

    /// The kind of reading that the fast path needs in this state.
    pub open spec fn spec_read_kind(&self) -> ReadKind {
        match self {
            ClockState::Stable { .. } => ReadKind::Counter,
            ClockState::PerCoreStable { .. } => ReadKind::CounterWithCore,
            ClockState::Unstable => ReadKind::Coarse,
        }
    }

    /// Whether `raw` is a reading that this state can interpret: it is of
    /// the kind that the state needs, and a core that it names has an
    /// offset.
    pub open spec fn accepts(&self, raw: RawReading) -> bool {
        match (self, raw) {
            (ClockState::Stable { .. }, RawReading::Counter { .. }) => true,
            (
                ClockState::PerCoreStable { offsets, .. },
                RawReading::CounterOnCore { core, .. },
            ) => offsets@.dom().contains(core),
            (ClockState::Unstable, RawReading::Coarse { .. }) => true,
            _ => false,
        }
    }

    /// The cycles since the anchor that `raw` stands for: the counter
    /// minus the offset that applies, with wraparound, or the nanoseconds
    /// of the coarse clock as they are.
    pub open spec fn cycles_of(&self, raw: RawReading) -> u64
        recommends
            self.accepts(raw),
    {
        match (self, raw) {
            (ClockState::Stable { offset, .. }, RawReading::Counter { value }) => value.wrapping_sub(
                *offset,
            ),
            (
                ClockState::PerCoreStable { offsets, .. },
                RawReading::CounterOnCore { value, core },
            ) => value.wrapping_sub(offsets@[core]),
            (ClockState::Unstable, RawReading::Coarse { nanos }) => nanos,
            _ => 0,
        }
    }

    /// The length of one cycle as a fraction of nanoseconds: 10^9 over the
    /// rate where the counter is used, one over one where it is not.
    pub open spec fn spec_nanos_per_cycle_ratio(&self) -> (u64, u64) {
        match self {
            ClockState::Stable { rate_hz, .. } => (NANOS_PER_SEC, *rate_hz),
            ClockState::PerCoreStable { rate_hz, .. } => (NANOS_PER_SEC, *rate_hz),
            ClockState::Unstable => (1u64, 1u64),
        }
    }

    /// The state after calibrating a counter that all cores share: stable
    /// with the measured rate and offset, or unstable if the calibration
    /// failed or measured no rate.
    pub fn from_global(outcome: Result<Calibration, CalibrationError>) -> (state: ClockState)
        ensures
            state.wf(),
            match outcome {
                Ok(c) if c.rate_hz > 0 => state == (ClockState::Stable {
                    rate_hz: c.rate_hz,
                    offset: c.offset,
                }),
                _ => state == ClockState::Unstable,
            },
    {
        match outcome {
            Ok(c) => {
                if c.rate_hz > 0 {
                    ClockState::Stable { rate_hz: c.rate_hz, offset: c.offset }
                } else {
                    ClockState::Unstable
                }
            },
            Err(_) => ClockState::Unstable,
        }
    }

    /// The state after calibrating each core: per-core stable with the
    /// common rate and the table, or unstable if no table was built or
    /// there is no rate.
    pub fn from_per_core(outcome: Result<(u64, OffsetTable), BuildError>) -> (state: ClockState)
        requires
            outcome matches Ok((_, table)) ==> table.wf(),
        ensures
            state.wf(),
            match outcome {
                Ok((rate_hz, offsets)) if rate_hz > 0 => state == (ClockState::PerCoreStable {
                    rate_hz,
                    offsets,
                }),
                _ => state == ClockState::Unstable,
            },
    {
        match outcome {
            Ok((rate_hz, offsets)) => {
                if rate_hz > 0 {
                    ClockState::PerCoreStable { rate_hz, offsets }
                } else {
                    ClockState::Unstable
                }
            },
            Err(_) => ClockState::Unstable,
        }
    }

    /// The level of trust that this state stands for.
    pub fn level(&self) -> (level: StabilityLevel)
        ensures
            level == self.spec_level(),
    {
        match self {
            ClockState::Stable { .. } => StabilityLevel::GloballyStable,
            ClockState::PerCoreStable { .. } => StabilityLevel::PerCoreStable,
            ClockState::Unstable => StabilityLevel::Unstable,
        }
    }

    /// The counter's ticks per second.
    pub fn cycles_per_second(&self) -> (rate_hz: u64)
        requires
            self.wf(),
            !(self is Unstable),
        ensures
            rate_hz > 0,
            self matches ClockState::Stable { rate_hz: r, .. } ==> rate_hz == r,
            self matches ClockState::PerCoreStable { rate_hz: r, .. } ==> rate_hz == r,
    {
        match self {
            ClockState::Stable { rate_hz, .. } => *rate_hz,
            ClockState::PerCoreStable { rate_hz, .. } => *rate_hz,
            ClockState::Unstable => vstd::pervasive::unreached(),
        }
    }

    /// The length of one cycle as a fraction of nanoseconds, numerator
    /// first.
    pub fn nanos_per_cycle_ratio(&self) -> (ratio: (u64, u64))
        requires
            self.wf(),
        ensures
            ratio.1 > 0,
            ratio == self.spec_nanos_per_cycle_ratio(),
    {
        match self {
            ClockState::Stable { rate_hz, .. } => (NANOS_PER_SEC, *rate_hz),
            ClockState::PerCoreStable { rate_hz, .. } => (NANOS_PER_SEC, *rate_hz),
            ClockState::Unstable => (1, 1),
        }
    }

    /// The kind of reading that the fast path needs in this state.
    pub fn read_kind(&self) -> (kind: ReadKind)
        ensures
            kind == self.spec_read_kind(),
    {
        match self {
            ClockState::Stable { .. } => ReadKind::Counter,
            ClockState::PerCoreStable { .. } => ReadKind::CounterWithCore,
            ClockState::Unstable => ReadKind::Coarse,
        }
    }

    /// The cycles since the anchor that `raw` stands for, or `None` if
    /// this state cannot interpret `raw`.
    pub fn try_now_cycles(&self, raw: RawReading) -> (cycles: Option<u64>)
        requires
            self.wf(),
        ensures
            cycles == if self.accepts(raw) {
                Some(self.cycles_of(raw))
            } else {
                None
            },
    {
        match (self, raw) {
            (ClockState::Stable { offset, .. }, RawReading::Counter { value }) => Some(
                value.wrapping_sub(*offset),
            ),
            (
                ClockState::PerCoreStable { offsets, .. },
                RawReading::CounterOnCore { value, core },
            ) => match offsets.get(core) {
                Some(offset) => Some(value.wrapping_sub(offset)),
                None => None,
            },
            (ClockState::Unstable, RawReading::Coarse { nanos }) => Some(nanos),
            _ => None,
        }
    }

    /// The cycles since the anchor that `raw` stands for.
    pub fn now_cycles(&self, raw: RawReading) -> (cycles: u64)
        requires
            self.wf(),
            self.accepts(raw),
        ensures
            cycles == self.cycles_of(raw),
    {
        match self.try_now_cycles(raw) {
            Some(cycles) => cycles,
            None => vstd::pervasive::unreached(),
        }
    }

    /// The reading that this state's source gives `elapsed` units after
    /// its zero, on `core`: the offset that applies plus `elapsed`, with
    /// wraparound, or `elapsed` nanoseconds of the coarse clock.
    pub open spec fn reading_after(&self, core: usize, elapsed: u64) -> RawReading {
        match self {
            ClockState::Stable { offset, .. } => RawReading::Counter {
                value: offset.wrapping_add(elapsed),
            },
            ClockState::PerCoreStable { offsets, .. } => RawReading::CounterOnCore {
                value: offsets@[core].wrapping_add(elapsed),
                core,
            },
            ClockState::Unstable => RawReading::Coarse { nanos: elapsed },
        }
    }

    /// A reading taken `elapsed` units after the zero of the source stands
    /// for `elapsed` cycles, whatever the offset and on whichever core it
    /// was taken.
    pub proof fn lemma_cycles_count_from_zero(&self, core: usize, elapsed: u64)
        requires
            self is PerCoreStable ==> self->offsets@.dom().contains(core),
        ensures
            self.accepts(self.reading_after(core, elapsed)),
            self.cycles_of(self.reading_after(core, elapsed)) == elapsed,
    {
    }

    /// Monotonicity: of two readings, the one taken later after the zero
    /// of the source never stands for fewer cycles, on one core or across
    /// cores.
    pub proof fn lemma_now_cycles_monotonic(
        &self,
        earlier_core: usize,
        earlier: u64,
        later_core: usize,
        later: u64,
    )
        requires
            self is PerCoreStable ==> self->offsets@.dom().contains(earlier_core)
                && self->offsets@.dom().contains(later_core),
            earlier <= later,
        ensures
            self.cycles_of(self.reading_after(earlier_core, earlier)) <= self.cycles_of(
                self.reading_after(later_core, later),
            ),
    {
        self.lemma_cycles_count_from_zero(earlier_core, earlier);
        self.lemma_cycles_count_from_zero(later_core, later);
    }

    /// Fallback: where the counter is not in use, a cycle is one
    /// nanosecond, and the cycles are the nanoseconds of the coarse clock
    /// as they are, so that they grow as the coarse clock does.
    pub proof fn lemma_unstable_follows_coarse_clock(&self, earlier: u64, later: u64)
        requires
            self is Unstable,
            earlier <= later,
        ensures
            self.spec_nanos_per_cycle_ratio() == (1u64, 1u64),
            self.accepts(RawReading::Coarse { nanos: earlier }),
            self.cycles_of(RawReading::Coarse { nanos: earlier }) == earlier,
            self.cycles_of(RawReading::Coarse { nanos: earlier }) <= self.cycles_of(
                RawReading::Coarse { nanos: later },
            ),
    {
    }
}

} // verus!
