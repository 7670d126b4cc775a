//! The stability classifier: decides from what the operating system
//! exposes whether the cycle counter is synchronized across all cores,
//! usable with a correction per core, or not usable at all.
//!
//! Reading the operating system's files is left to the caller, who hands
//! in their text, or `None` for a file that could not be read.

use vstd::prelude::*;
use vstd::string::StringSliceAdditionalSpecFns;

verus! {

/// How far the cycle counter can be trusted.
#[derive(Clone, Copy, Debug, PartialEq, Eq, Structural)]
pub enum StabilityLevel {
    /// The counter is synchronized across all cores.
    GloballyStable,
    /// The counter runs at a constant rate on each core, but the cores
    /// are not synchronized: each needs its own offset.
    PerCoreStable,
    /// The counter must not be used.
    Unstable,
}

/// Whether `needle` occurs in `hay` as a contiguous run of bytes.
pub open spec fn contains_bytes(hay: Seq<u8>, needle: Seq<u8>) -> bool {
    exists|at: int| occurs_at(hay, needle, at)
}

/// Whether `needle` occurs in `hay` at position `at`.
pub open spec fn occurs_at(hay: Seq<u8>, needle: Seq<u8>, at: int) -> bool {
    &&& 0 <= at
    &&& at + needle.len() <= hay.len()
    &&& hay.subrange(at, at + needle.len()) == needle
}

/// Whether the text that lists the clock source names the cycle counter.
pub open spec fn names_counter(clock_source: Seq<u8>) -> bool {
    contains_bytes(clock_source, "tsc".spec_bytes())
}

/// Whether the processor's flags promise a counter that runs at a constant
/// rate, does not stop in low-power states, and can be read together with
/// the identifier of the core.
pub open spec fn has_per_core_flags(cpu_flags: Seq<u8>) -> bool {
    &&& contains_bytes(cpu_flags, "constant_tsc".spec_bytes())
    &&& contains_bytes(cpu_flags, "nonstop_tsc".spec_bytes())
    &&& contains_bytes(cpu_flags, "rdtscp".spec_bytes())
}

/// The classification of a machine, given the bytes of the two texts. A
/// text that could not be read counts as one that promises nothing.
pub open spec fn classification(
    clock_source: Option<Seq<u8>>,
    cpu_flags: Option<Seq<u8>>,
) -> StabilityLevel {
    if clock_source matches Some(text) && names_counter(text) {
        StabilityLevel::GloballyStable
    } else if cpu_flags matches Some(text) && has_per_core_flags(text) {
        StabilityLevel::PerCoreStable
    } else {
        StabilityLevel::Unstable
    }
}

/// The bytes of a text that may be missing.
pub open spec fn bytes_of(text: Option<&str>) -> Option<Seq<u8>> {
    match text {
        Some(t) => Some(t.spec_bytes()),
        None => None,
    }
}

/// Tests whether `needle` stands in `hay` at position `at`.
fn matches_at(hay: &[u8], needle: &[u8], at: usize) -> (matches: bool)
    requires
        at + needle@.len() <= hay@.len(),
    ensures
        matches == occurs_at(hay@, needle@, at as int),
{
    let ghost window = hay@.subrange(at as int, at + needle@.len());
    let hay_len: usize = hay.len();
    let mut i: usize = 0;
    while i < needle.len()
        invariant
            hay_len == hay@.len(),
            i <= needle@.len(),
            at + needle@.len() <= hay@.len(),
            window == hay@.subrange(at as int, at + needle@.len()),
            forall|k: int| 0 <= k < i ==> window[k] == needle@[k],
        decreases needle@.len() - i,
    {
        if hay[at + i] != needle[i] {
            assert(window[i as int] != needle@[i as int]);
            return false;
        }
        i += 1;
    }
    assert(window =~= needle@);
    true
}

/// Tests whether `needle` occurs in `hay`.
pub fn contains(hay: &[u8], needle: &[u8]) -> (found: bool)
    ensures
        found == contains_bytes(hay@, needle@),
{
    if needle.len() > hay.len() {
        return false;
    }
    let last: usize = hay.len() - needle.len();
    let mut at: usize = 0;
    while at <= last
        invariant
            last == hay@.len() - needle@.len(),
            at <= last + 1,
            forall|k: int| 0 <= k < at ==> !occurs_at(hay@, needle@, k),
        decreases last + 1 - at,
    {
        if matches_at(hay, needle, at) {
            return true;
        }
        if at == last {
            return false;
        }
        at += 1;
    }
    false
}

/// Classifies the machine.
///
/// `clock_source` is the operating system's text on the clock source in
/// use, `cpu_flags` its text on the processor's feature flags; `None`
/// stands for a text that could not be read. Always returns a level: a
/// missing text is evidence of instability, never an error.
pub fn classify(clock_source: Option<&str>, cpu_flags: Option<&str>) -> (level: StabilityLevel)
    ensures
        level == classification(bytes_of(clock_source), bytes_of(cpu_flags)),
{
    if let Some(text) = clock_source {
        if contains(text.as_bytes(), "tsc".as_bytes()) {
            return StabilityLevel::GloballyStable;
        }
    }
    if let Some(text) = cpu_flags {
        let flags: &[u8] = text.as_bytes();
        if contains(flags, "constant_tsc".as_bytes()) && contains(flags, "nonstop_tsc".as_bytes())
            && contains(flags, "rdtscp".as_bytes()) {
            return StabilityLevel::PerCoreStable;
        }
    }
    StabilityLevel::Unstable
}

} // verus!
