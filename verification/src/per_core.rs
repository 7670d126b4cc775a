//! The table of per-core offsets, and the rules by which the calibrations
//! of the single cores are accepted as one consistent clock.
//!
//! Pinning a thread to each core and calibrating there is left to the
//! caller, who hands in what each core reported.

use crate::calibrate::{
    conclude, conclusion, Calibration, CalibrationError, Calibrator, Reading, Step,
};
use crate::cpu_list::CoreSet;
use vstd::prelude::*;

verus! {

/// The rates of two cores are consistent when they differ by no more than
/// one part in this many of the lower one (0.05%).
pub const CROSS_CORE_PARTS: u64 = 2000;

/// The clock and the counter, read together with the core that the
/// counter was read on.
#[derive(Clone, Copy, Debug, PartialEq, Eq, Structural)]
pub struct CoreReading {
    /// The clock and the counter.
    pub reading: Reading,
    /// The core that the counter named when it was read.
    pub core: usize,
}

/// What the calibration on one core reported.
#[derive(Clone, Copy, Debug, PartialEq, Eq, Structural)]
pub struct CoreReport {
    /// The core on which every reading of the calibration was taken.
    pub observed_core: usize,
    /// The rate and offset measured there.
    pub calibration: Calibration,
}

/// A calibration bound to one core: it fails on the first reading that
/// another core took, since an offset must not be attributed to the wrong
/// core.
#[derive(Clone, Copy, Debug, PartialEq, Eq, Structural)]
pub struct CoreCalibrator {
    /// The core that the calibrating thread is pinned to.
    pub pinned: usize,
    /// The calibration itself.
    pub inner: Calibrator,
}

impl CoreCalibrator {
    /// The calibrator for `pinned` before its first reading.
    pub open spec fn initial(pinned: usize) -> CoreCalibrator {
        CoreCalibrator { pinned, inner: Calibrator::initial() }
    }

    /// Well-formedness: that of the calibration.
    pub open spec fn wf(self) -> bool {
        self.inner.wf()
    }

    /// The transition: a finished calibrator repeats its verdict; a
    /// reading from another core ends the calibration; any other reading
    /// goes to the calibration.
    pub open spec fn next(self, r: CoreReading) -> (CoreCalibrator, Step) {
        if self.inner is Finished {
            (self, self.inner->verdict)
        } else if r.core != self.pinned {
            let verdict = Step::Failed(CalibrationError::WrongCore);
            (CoreCalibrator { pinned: self.pinned, inner: Calibrator::Finished { verdict } }, verdict)
        } else {
            let (inner, step) = self.inner.next(r.reading);
            (CoreCalibrator { pinned: self.pinned, inner }, step)
        }
    }

    /// The verdict after feeding `readings` in order: the first answer
    /// other than [`Step::Continue`], or [`Step::Continue`] if the readings
    /// end before one.
    pub open spec fn run(self, readings: Seq<CoreReading>) -> Step
        decreases readings.len(),
    {
        if readings.len() == 0 {
            Step::Continue
        } else {
            let (after, step) = self.next(readings[0]);
            if step is Continue {
                after.run(readings.skip(1))
            } else {
                step
            }
        }
    }

    /// Starts a calibration on the core `pinned`.
    pub fn new(pinned: usize) -> (calibrator: CoreCalibrator)
        ensures
            calibrator == CoreCalibrator::initial(pinned),
            calibrator.wf(),
    {
        CoreCalibrator { pinned, inner: Calibrator::new() }
    }

    /// Takes one reading and says what to do next.
    pub fn feed(&mut self, r: CoreReading) -> (step: Step)
        requires
            old(self).wf(),
        ensures
            (*final(self), step) == old(self).next(r),
            final(self).wf(),
            step is Done ==> step->rate_hz > 0,
    {
        match self.inner {
            Calibrator::Finished { verdict } => verdict,
            _ => {
                if r.core != self.pinned {
                    let verdict: Step = Step::Failed(CalibrationError::WrongCore);
                    self.inner = Calibrator::Finished { verdict };
                    verdict
                } else {
                    self.inner.feed(r.reading)
                }
            },
        }
    }
}

impl CoreCalibrator {
    /// Bounded duration: the calibration of a core reaches its verdict
    /// after at most as many readings as the calibration itself has left,
    /// whatever they hold.
    pub proof fn lemma_run_terminates(self, readings: Seq<CoreReading>)
        requires
            self.wf(),
            readings.len() >= self.inner.readings_left(),
        ensures
            !(self.run(readings) is Continue),
        decreases readings.len(),
    {
        assert(crate::calibrate::MAX_WINDOWS == 64 && crate::calibrate::MAX_POLLS == 0x4000_0000);
        let (after, step) = self.next(readings[0]);
        if step is Continue {
            after.lemma_run_terminates(readings.skip(1));
        }
    }
}

/// What the core `pinned` reports after a calibration against
/// `anchor_nanos` over recorded `readings`: its rate and offset, or
/// nothing if the calibration did not converge.
pub open spec fn core_report_of(
    pinned: usize,
    anchor_nanos: u64,
    readings: Seq<CoreReading>,
) -> Option<CoreReport> {
    match conclusion(anchor_nanos, CoreCalibrator::initial(pinned).run(readings)) {
        Ok(calibration) => Some(CoreReport { observed_core: pinned, calibration }),
        Err(_) => None,
    }
}

/// Runs the calibration of one core over recorded readings.
///
/// Readings after the one that settles the calibration are ignored.
pub fn calibrate_core(pinned: usize, anchor_nanos: u64, readings: &[CoreReading]) -> (report:
    Option<CoreReport>)
    ensures
        report == core_report_of(pinned, anchor_nanos, readings@),
        report matches Some(r) ==> r.calibration.rate_hz > 0 && r.observed_core == pinned,
{
    let mut calibrator: CoreCalibrator = CoreCalibrator::new(pinned);
    let mut i: usize = 0;
    assert(readings@.skip(0) =~= readings@);
    while i < readings.len()
        invariant
            i <= readings.len(),
            calibrator.wf(),
            calibrator.pinned == pinned,
            CoreCalibrator::initial(pinned).run(readings@) == calibrator.run(
                readings@.skip(i as int),
            ),
        decreases readings.len() - i,
    {
        let ghost rest = readings@.skip(i as int);
        assert(rest[0] == readings@[i as int]);
        assert(rest.skip(1) == readings@.skip(i + 1));
        let step: Step = calibrator.feed(readings[i]);
        match step {
            Step::Continue => {},
            _ => {
                return match conclude(anchor_nanos, step) {
                    Ok(calibration) => Some(CoreReport { observed_core: pinned, calibration }),
                    Err(_) => None,
                };
            },
        }
        i += 1;
    }
    assert(readings@.skip(i as int).len() == 0);
    None
}

/// Why no table of offsets was built.
#[derive(Clone, Copy, Debug, PartialEq, Eq, Structural)]
pub enum BuildError {
    /// There is no core to calibrate.
    NoCores,
    /// A core has no report, or one from another core, or one without a
    /// rate.
    CoreFailed,
    /// The cores do not run the counter at one rate.
    Inconsistent,
}

/// The offset of each calibrated core.
#[derive(Debug)]
pub struct OffsetTable {
    cores: CoreSet,
    offsets: Vec<u64>,
}

impl View for OffsetTable {
    type V = Map<usize, u64>;

    open spec fn view(&self) -> Map<usize, u64> {
        Map::new(
            |core: usize| self.cores()@.contains(core),
            |core: usize| self.offsets()[self.cores().ids().index_of(core)],
        )
    }
}

impl OffsetTable {
    /// The cores that have an offset.
    pub closed spec fn cores(&self) -> CoreSet {
        self.cores
    }

    /// The offsets, in the ascending order of their cores.
    pub closed spec fn offsets(&self) -> Seq<u64> {
        self.offsets@
    }

    /// Well-formedness: each core has one offset.
    pub open spec fn wf(&self) -> bool {
        &&& self.cores().wf()
        &&& self.offsets().len() == self.cores().ids().len()
    }

    /// The number of cores in the table.
    pub fn len(&self) -> (n: usize)
        requires
            self.wf(),
        ensures
            n == self@.dom().len(),
            n == self.cores().ids().len(),
    {
        assert(self@.dom() =~= self.cores()@);
        self.cores.len()
    }

    /// The offset of `core`, if the table has one.
    pub fn get(&self, core: usize) -> (offset: Option<u64>)
        requires
            self.wf(),
        ensures
            offset == if self@.dom().contains(core) {
                Some(self@[core])
            } else {
                None
            },
    {
        match self.cores.position(core) {
            Some(p) => {
                proof {
                    self.lemma_entry(p as int);
                }
                Some(self.offsets[p])
            },
            None => None,
        }
    }

    /// The table maps the core at position `p` to the offset at position
    /// `p`.
    pub proof fn lemma_entry(&self, p: int)
        requires
            self.wf(),
            0 <= p < self.cores().ids().len(),
        ensures
            self@.dom().contains(self.cores().ids()[p]),
            self@[self.cores().ids()[p]] == self.offsets()[p],
    {
        let ids = self.cores().ids();
        let core = ids[p];
        self.cores().lemma_ids_distinct();
        assert(ids.contains(core));
        let q = ids.index_of(core);
        assert(0 <= q < ids.len() && ids[q] == core);
    }
}

/// Whether `report` is a usable report for `core`: one is there, the
/// counter named that core, and the rate is positive.
pub open spec fn report_ok(core: usize, report: Option<CoreReport>) -> bool {
    &&& report matches Some(r)
    &&& r.observed_core == core
    &&& r.calibration.rate_hz > 0
}

/// Whether every core has a usable report: `reports[i]` is the report of
/// the core at position `i` of the ascending order.
pub open spec fn all_reported(cores: Seq<usize>, reports: Seq<Option<CoreReport>>) -> bool {
    &&& reports.len() == cores.len()
    &&& forall|i: int| 0 <= i < cores.len() ==> report_ok(cores[i], #[trigger] reports[i])
}

/// The rates that the reports hold, a missing report counting as zero.
pub open spec fn rates_of(reports: Seq<Option<CoreReport>>) -> Seq<u64> {
    Seq::new(
        reports.len(),
        |i: int|
            match reports[i] {
                Some(r) => r.calibration.rate_hz,
                None => 0,
            },
    )
}

/// The lowest of `rates`.
pub open spec fn min_rate(rates: Seq<u64>) -> u64
    decreases rates.len(),
{
    if rates.len() == 0 {
        u64::MAX
    } else {
        let rest = min_rate(rates.drop_last());
        if rates.last() < rest {
            rates.last()
        } else {
            rest
        }
    }
}

/// The highest of `rates`.
pub open spec fn max_rate(rates: Seq<u64>) -> u64
    decreases rates.len(),
{
    if rates.len() == 0 {
        0
    } else {
        let rest = max_rate(rates.drop_last());
        if rates.last() > rest {
            rates.last()
        } else {
            rest
        }
    }
}

/// The sum of `rates`.
pub open spec fn total_rate(rates: Seq<u64>) -> nat
    decreases rates.len(),
{
    if rates.len() == 0 {
        0
    } else {
        total_rate(rates.drop_last()) + rates.last() as nat
    }
}

/// The mean of `rates`, rounded down.
pub open spec fn mean_rate(rates: Seq<u64>) -> nat
    recommends
        rates.len() > 0,
{
    total_rate(rates) / rates.len()
}

/// Whether the highest rate exceeds the lowest by more than 0.05% of the
/// lowest.
pub open spec fn spread_too_wide(rates: Seq<u64>) -> bool {
    (max_rate(rates) - min_rate(rates)) * CROSS_CORE_PARTS > min_rate(rates)
}

/// The table that the reports of `cores` make: each core with the offset
/// of its report.
pub open spec fn offsets_of(cores: Seq<usize>, reports: Seq<Option<CoreReport>>) -> Map<
    usize,
    u64,
> {
    Map::new(
        |core: usize| cores.contains(core),
        |core: usize| reports[cores.index_of(core)]->0.calibration.offset,
    )
}

/// What the reports of `cores` amount to: the error that applies first, or
/// no error.
pub open spec fn build_error(cores: Seq<usize>, reports: Seq<Option<CoreReport>>) -> Option<
    BuildError,
> {
    if cores.len() == 0 {
        Some(BuildError::NoCores)
    } else if !all_reported(cores, reports) {
        Some(BuildError::CoreFailed)
    } else if spread_too_wide(rates_of(reports)) {
        Some(BuildError::Inconsistent)
    } else {
        None
    }
}

/// Every rate lies between the lowest and the highest.
pub proof fn lemma_rate_bounds(rates: Seq<u64>, i: int)
    requires
        0 <= i < rates.len(),
    ensures
        min_rate(rates) <= rates[i] <= max_rate(rates),
    decreases rates.len(),
{
    if i < rates.len() - 1 {
        lemma_rate_bounds(rates.drop_last(), i);
    }
}

/// The sum of rates is at most as many times the largest 64-bit number.
proof fn lemma_total_bound(rates: Seq<u64>)
    ensures
        total_rate(rates) <= rates.len() * u64::MAX,
    decreases rates.len(),
{
    if rates.len() > 0 {
        lemma_total_bound(rates.drop_last());
    }
}

/// The mean of rates fits 64 bits.
proof fn lemma_mean_fits(total: nat, n: nat)
    by (nonlinear_arith)
    requires
        n > 0,
        total <= n * u64::MAX,
    ensures
        total / n <= u64::MAX,
{
}

/// Cross-core validation: reports in which the rate of a single core
/// exceeds that of another by more than 0.05% of the other's are rejected,
/// as inconsistent unless another error applies first.
pub proof fn lemma_deviating_core_rejected(
    cores: Seq<usize>,
    reports: Seq<Option<CoreReport>>,
    fast: int,
    slow: int,
)
    requires
        0 <= fast < reports.len(),
        0 <= slow < reports.len(),
        (rates_of(reports)[fast] - rates_of(reports)[slow]) * CROSS_CORE_PARTS > rates_of(
            reports,
        )[slow],
    ensures
        spread_too_wide(rates_of(reports)),
        build_error(cores, reports) is Some,
        cores.len() > 0 && all_reported(cores, reports) ==> build_error(cores, reports) == Some(
            BuildError::Inconsistent,
        ),
{
    lemma_rate_bounds(rates_of(reports), fast);
    lemma_rate_bounds(rates_of(reports), slow);
}

/// Assembles the per-core calibrations into one rate and a table of
/// offsets.
///
/// `reports[i]` is what the core at position `i` of the ascending order of
/// `cores` reported, `None` if its calibration failed in any way.
///
/// Fails if there is no core, if a core has no usable report, or if the
/// highest rate exceeds the lowest by more than 0.05%. Otherwise returns
/// the mean rate and the offset of each core.
pub fn build(cores: CoreSet, reports: &[Option<CoreReport>]) -> (result: Result<
    (u64, OffsetTable),
    BuildError,
>)
    requires
        cores.wf(),
    ensures
        match build_error(cores.ids(), reports@) {
            Some(e) => result matches Err(found) && found == e,
            None => {
                &&& result matches Ok((rate_hz, table))
                &&& rate_hz == mean_rate(rates_of(reports@))
                &&& rate_hz > 0
                &&& table.wf()
                &&& table.cores() == cores
                &&& table@ == offsets_of(cores.ids(), reports@)
                &&& table@.dom() == cores@
                &&& forall|i: int|
                    0 <= i < reports@.len() ==> table@[cores.ids()[i]]
                        == (#[trigger] reports@[i])->0.calibration.offset
            },
        },
{
    let n: usize = cores.len();
    if n == 0 {
        return Err(BuildError::NoCores);
    }
    if reports.len() != n {
        return Err(BuildError::CoreFailed);
    }
    let ghost rates = rates_of(reports@);
    let mut offsets: Vec<u64> = Vec::new();
    let mut lowest: u64 = u64::MAX;
    let mut highest: u64 = 0;
    let mut total: u128 = 0;
    let mut i: usize = 0;
    assert(rates.take(0) =~= Seq::<u64>::empty());
    while i < n
        invariant
            i <= n,
            n == cores.ids().len(),
            n == reports@.len(),
            cores.wf(),
            rates == rates_of(reports@),
            forall|k: int| 0 <= k < i ==> report_ok(cores.ids()[k], #[trigger] reports@[k]),
            offsets@.len() == i,
            forall|k: int|
                0 <= k < i ==> offsets@[k] == (#[trigger] reports@[k])->0.calibration.offset,
            lowest == min_rate(rates.take(i as int)),
            highest == max_rate(rates.take(i as int)),
            total == total_rate(rates.take(i as int)),
        decreases n - i,
    {
        let report: CoreReport = match reports[i] {
            Some(r) => r,
            None => {
                return Err(BuildError::CoreFailed);
            },
        };
        if report.observed_core != cores.get(i) || report.calibration.rate_hz == 0 {
            return Err(BuildError::CoreFailed);
        }
        let rate: u64 = report.calibration.rate_hz;
        proof {
            assert(rates.take(i + 1).drop_last() =~= rates.take(i as int));
            assert(rates.take(i + 1).last() == rate);
            lemma_total_bound(rates.take(i as int));
            assert(i * u64::MAX + u64::MAX <= u128::MAX) by (nonlinear_arith)
                requires
                    i < usize::MAX,
                    usize::MAX <= u64::MAX,
            ;
        }
        if rate < lowest {
            lowest = rate;
        }
        if rate > highest {
            highest = rate;
        }
        total = total + rate as u128;
        offsets.push(report.calibration.offset);
        i += 1;
    }
    assert(rates.take(n as int) =~= rates);
    assert(all_reported(cores.ids(), reports@));
    proof {
        lemma_rate_bounds(rates, 0);
    }
    if (highest - lowest) as u128 * 2000u128 > lowest as u128 {
        return Err(BuildError::Inconsistent);
    }
    proof {
        lemma_total_bound(rates);
        lemma_mean_fits(total as nat, n as nat);
        assert(total >= n) by {
            lemma_total_at_least(rates);
        }
        assert(total as nat / n as nat >= 1) by (nonlinear_arith)
            requires
                total >= n,
                n > 0,
        ;
    }
    let mean: u64 = (total / n as u128) as u64;
    let table = OffsetTable { cores, offsets };
    proof {
        assert(table@.dom() =~= cores@);
        assert forall|k: int| 0 <= k < reports@.len() implies table@[cores.ids()[k]] == (
        #[trigger] reports@[k])->0.calibration.offset by {
            table.lemma_entry(k);
        }
        assert forall|core: usize| cores@.contains(core) implies table@[core] == offsets_of(
            cores.ids(),
            reports@,
        )[core] by {
            let k = cores.ids().index_of(core);
            table.lemma_entry(k);
        }
        assert(table@ =~= offsets_of(cores.ids(), reports@));
    }
    Ok((mean, table))
}

/// Positive rates sum to at least their number.
proof fn lemma_total_at_least(rates: Seq<u64>)
    requires
        forall|i: int| 0 <= i < rates.len() ==> rates[i] >= 1,
    ensures
        total_rate(rates) >= rates.len(),
    decreases rates.len(),
{
    if rates.len() > 0 {
        lemma_total_at_least(rates.drop_last());
    }
}

} // verus!
