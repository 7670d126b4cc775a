//! Initialization: the decisions that lead from nothing known to the clock
//! state that a process publishes.
//!
//! The work between the decisions is left to the caller: reading the
//! operating system's texts, and calibrating, once or on every core. The
//! caller asks the [`Initializer`] what to do, does it, and reports what
//! came of it. Every failure on the way leads to the unstable state; none
//! is an error of the initialization.

use crate::calibrate::{Calibration, CalibrationError};
use crate::clock::ClockState;
use crate::cpu_list::{parse_cpu_list, parse_cpu_list_format, CoreSet};
use crate::per_core::{build, build_error, mean_rate, offsets_of, rates_of, CoreReport};
use crate::stability::{bytes_of, classification, classify, StabilityLevel};
use vstd::prelude::*;
use vstd::string::StringSliceAdditionalSpecFns;

verus! {

/// What the caller has to do next.
#[derive(Clone, Copy, Debug, PartialEq, Eq, Structural)]
pub enum InitAction {
    /// Read the texts on the clock source and on the processor's flags,
    /// and report them with [`Initializer::configured`].
    ReadConfiguration,
    /// Take an anchor and calibrate on whatever core, and report the
    /// outcome with [`Initializer::global_calibrated`].
    CalibrateGlobal,
    /// Read the list of the cores that are online, and report it with
    /// [`Initializer::core_list_read`].
    ReadCoreList,
    /// Take an anchor, calibrate on each of the cores that the initializer
    /// holds, and report the outcomes with
    /// [`Initializer::cores_calibrated`].
    CalibrateCores,
    /// Publish the state that the initializer holds.
    Publish,
}

/// The progress of an initialization.
#[derive(Debug)]
pub enum Initializer {
    /// Nothing is known yet.
    Start,
    /// The counter is synchronized across all cores; one calibration is
    /// awaited.
    AwaitGlobal,
    /// The counter is stable on each core; the list of cores is awaited.
    AwaitCoreList,
    /// The calibrations of `cores` are awaited.
    AwaitCores { cores: CoreSet },
    /// The state is settled. Nothing changes it any more.
    Published { state: ClockState },
}

impl Initializer {
    /// Well-formedness: that of the cores or of the state it holds.
    pub open spec fn wf(&self) -> bool {
        match self {
            Initializer::AwaitCores { cores } => cores.wf(),
            Initializer::Published { state } => state.wf(),
            _ => true,
        }
    }

    /// What the caller has to do in this state.
    pub open spec fn spec_action(&self) -> InitAction {
        match self {
            Initializer::Start => InitAction::ReadConfiguration,
            Initializer::AwaitGlobal => InitAction::CalibrateGlobal,
            Initializer::AwaitCoreList => InitAction::ReadCoreList,
            Initializer::AwaitCores { .. } => InitAction::CalibrateCores,
            Initializer::Published { .. } => InitAction::Publish,
        }
    }

    /// Whether the initialization ended without a usable counter.
    pub open spec fn fell_back(&self) -> bool {
        self matches Initializer::Published { state } && state is Unstable
    }

    /// Starts an initialization.
    pub fn new() -> (init: Initializer)
        ensures
            init is Start,
            init.wf(),
    {
        Initializer::Start
    }

    /// What the caller has to do next.
    pub fn action(&self) -> (action: InitAction)
        ensures
            action == self.spec_action(),
    {
        match self {
            Initializer::Start => InitAction::ReadConfiguration,
            Initializer::AwaitGlobal => InitAction::CalibrateGlobal,
            Initializer::AwaitCoreList => InitAction::ReadCoreList,
            Initializer::AwaitCores { .. } => InitAction::CalibrateCores,
            Initializer::Published { .. } => InitAction::Publish,
        }
    }

    /// The cores that are to be calibrated, in ascending order, while
    /// their calibrations are awaited; no cores otherwise.
    pub fn cores(&self) -> (ids: Vec<usize>)
        requires
            self.wf(),
        ensures
            ids@ == match self {
                Initializer::AwaitCores { cores } => cores.ids(),
                _ => Seq::<usize>::empty(),
            },
    {
        let mut ids: Vec<usize> = Vec::new();
        if let Initializer::AwaitCores { cores } = self {
            let n: usize = cores.len();
            let mut i: usize = 0;
            while i < n
                invariant
                    i <= n,
                    n == cores.ids().len(),
                    ids@ == cores.ids().take(i as int),
                decreases n - i,
            {
                ids.push(cores.get(i));
                assert(cores.ids().take(i + 1) =~= cores.ids().take(i as int).push(
                    cores.ids()[i as int],
                ));
                i += 1;
            }
            assert(cores.ids().take(n as int) =~= cores.ids());
        }
        ids
    }

    /// Takes the texts on the clock source and on the processor's flags,
    /// `None` for one that could not be read.
    ///
    /// At the start the machine is classified: a counter synchronized
    /// across all cores awaits one calibration, a counter stable per core
    /// awaits the list of cores, and any other is unstable. A settled
    /// state stays; in any other state the report is out of turn and the
    /// outcome is unstable.
    pub fn configured(self, clock_source: Option<&str>, cpu_flags: Option<&str>) -> (next:
        Initializer)
        requires
            self.wf(),
        ensures
            next.wf(),
            self is Published ==> next == self,
            self is Start ==> match classification(bytes_of(clock_source), bytes_of(cpu_flags)) {
                StabilityLevel::GloballyStable => next is AwaitGlobal,
                StabilityLevel::PerCoreStable => next is AwaitCoreList,
                StabilityLevel::Unstable => next.fell_back(),
            },
            !(self is Published) && !(self is Start) ==> next.fell_back(),
    {
        match self {
            Initializer::Published { state } => Initializer::Published { state },
            Initializer::Start => match classify(clock_source, cpu_flags) {
                StabilityLevel::GloballyStable => Initializer::AwaitGlobal,
                StabilityLevel::PerCoreStable => Initializer::AwaitCoreList,
                StabilityLevel::Unstable => Initializer::Published { state: ClockState::Unstable },
            },
            _ => Initializer::Published { state: ClockState::Unstable },
        }
    }

    /// Takes the outcome of the one calibration.
    ///
    /// Where it was awaited, a calibration with a rate settles the stable
    /// state with that rate and offset, and a failed one the unstable
    /// state. A settled state stays; in any other state the report is out
    /// of turn and the outcome is unstable.
    pub fn global_calibrated(self, outcome: Result<Calibration, CalibrationError>) -> (next:
        Initializer)
        requires
            self.wf(),
        ensures
            next.wf(),
            next is Published,
            self is Published ==> next == self,
            self is AwaitGlobal ==> match outcome {
                Ok(c) if c.rate_hz > 0 => next->state == (ClockState::Stable {
                    rate_hz: c.rate_hz,
                    offset: c.offset,
                }),
                _ => next.fell_back(),
            },
            !(self is Published) && !(self is AwaitGlobal) ==> next.fell_back(),
    {
        match self {
            Initializer::Published { state } => Initializer::Published { state },
            Initializer::AwaitGlobal => Initializer::Published {
                state: ClockState::from_global(outcome),
            },
            _ => Initializer::Published { state: ClockState::Unstable },
        }
    }

    /// Takes the text that lists the cores online, `None` if it could not
    /// be read.
    ///
    /// Where it was awaited, a list that parses leads on to the
    /// calibration of its cores; a missing list or one that does not
    /// parse counts as no cores at all, and the outcome is unstable. A
    /// settled state stays; in any other state the report is out of turn
    /// and the outcome is unstable.
    pub fn core_list_read(self, list: Option<&str>) -> (next: Initializer)
        requires
            self.wf(),
        ensures
            next.wf(),
            self is Published ==> next == self,
            self is AwaitCoreList ==> match list {
                Some(text) => match parse_cpu_list(text.spec_bytes()) {
                    Ok(ids) => next matches Initializer::AwaitCores { cores } && cores@ == ids,
                    Err(_) => next.fell_back(),
                },
                None => next.fell_back(),
            },
            !(self is Published) && !(self is AwaitCoreList) ==> next.fell_back(),
    {
        match self {
            Initializer::Published { state } => Initializer::Published { state },
            Initializer::AwaitCoreList => match list {
                Some(text) => match parse_cpu_list_format(text) {
                    Ok(cores) => Initializer::AwaitCores { cores },
                    Err(_) => Initializer::Published { state: ClockState::Unstable },
                },
                None => Initializer::Published { state: ClockState::Unstable },
            },
            _ => Initializer::Published { state: ClockState::Unstable },
        }
    }

    /// Takes what the cores reported: `reports[i]` for the core at
    /// position `i` of [`Initializer::cores`], `None` for a core whose
    /// calibration failed in any way.
    ///
    /// Where the reports were awaited, consistent reports of all cores
    /// settle the per-core state with the mean rate and the offset of each
    /// core; anything else settles the unstable state. A settled state
    /// stays; in any other state the report is out of turn and the
    /// outcome is unstable.
    pub fn cores_calibrated(self, reports: &[Option<CoreReport>]) -> (next: Initializer)
        requires
            self.wf(),
        ensures
            next.wf(),
            next is Published,
            self is Published ==> next == self,
            self matches Initializer::AwaitCores { cores } ==> match build_error(
                cores.ids(),
                reports@,
            ) {
                Some(_) => next.fell_back(),
                None => {
                    &&& next->state matches ClockState::PerCoreStable { rate_hz, offsets }
                    &&& rate_hz == mean_rate(rates_of(reports@))
                    &&& offsets@ == offsets_of(cores.ids(), reports@)
                },
            },
            !(self is Published) && !(self is AwaitCores) ==> next.fell_back(),
    {
        match self {
            Initializer::Published { state } => Initializer::Published { state },
            Initializer::AwaitCores { cores } => Initializer::Published {
                state: ClockState::from_per_core(build(cores, reports)),
            },
            _ => Initializer::Published { state: ClockState::Unstable },
        }
    }

    /// The settled state, or `None` while the initialization is under
    /// way.
    pub fn into_state(self) -> (state: Option<ClockState>)
        requires
            self.wf(),
        ensures
            match self {
                Initializer::Published { state: settled } => state == Some(settled),
                _ => state is None,
            },
            state matches Some(s) ==> s.wf(),
    {
        match self {
            Initializer::Published { state } => Some(state),
            _ => None,
        }
    }
}

} // verus!
