//! A span of time: whole seconds and a fraction of a second in
//! nanoseconds.

use vstd::prelude::*;

verus! {

/// Nanoseconds in one second.
pub const NANOS_PER_SEC: u32 = 1_000_000_000;

/// Nanoseconds in one millisecond.
pub const NANOS_PER_MILLI: u32 = 1_000_000;

/// Nanoseconds in one microsecond.
pub const NANOS_PER_MICRO: u32 = 1_000;

/// Milliseconds in one second.
pub const MILLIS_PER_SEC: u64 = 1_000;

/// Microseconds in one second.
pub const MICROS_PER_SEC: u64 = 1_000_000;

/// A span of time of up to 2^64 seconds, to the nanosecond.
#[derive(Clone, Copy, Debug, PartialEq, Eq, Structural, PartialOrd, Ord, Hash)]
pub struct Duration {
    secs: u64,
    nanos: u32,
}

/// The longest span that a [`Duration`] can hold, in nanoseconds.
pub open spec fn max_nanos() -> nat {
    (u64::MAX as nat) * 1_000_000_000 + 999_999_999
}

impl View for Duration {
    type V = nat;

    /// The span in nanoseconds.
    closed spec fn view(&self) -> nat {
        self.secs as nat * 1_000_000_000 + self.nanos as nat
    }
}

/// The whole seconds of a span of the standard library: what
/// `core::time::Duration::as_secs` returns.
pub uninterp spec fn std_secs(d: core::time::Duration) -> u64;

/// The fraction of a second of a span of the standard library, in
/// nanoseconds: what `core::time::Duration::subsec_nanos` returns.
pub uninterp spec fn std_subsec_nanos(d: core::time::Duration) -> u32;

/// Calls `core::time::Duration::as_secs`, which returns the whole seconds
/// of the span.
#[verifier::external_body]
fn std_duration_secs(d: &core::time::Duration) -> (secs: u64)
    ensures
        secs == std_secs(*d),
{
    d.as_secs()
}

/// Calls `core::time::Duration::subsec_nanos`, which returns the fraction
/// of a second in nanoseconds, always less than one second.
#[verifier::external_body]
fn std_duration_subsec_nanos(d: &core::time::Duration) -> (nanos: u32)
    ensures
        nanos == std_subsec_nanos(*d),
        nanos < 1_000_000_000,
{
    d.subsec_nanos()
}

impl From<core::time::Duration> for Duration {
    /// The same span as `d`.
    fn from(d: core::time::Duration) -> (out: Duration) {
        Duration { secs: std_duration_secs(&d), nanos: std_duration_subsec_nanos(&d) }
    }
}

impl vstd::std_specs::convert::FromSpecImpl<core::time::Duration> for Duration {
    open spec fn obeys_from_spec() -> bool {
        true
    }

    open spec fn from_spec(d: core::time::Duration) -> Duration {
        Duration::of_std(d)
    }
}

impl Default for Duration {
    /// The empty span.
    fn default() -> (d: Duration)
        ensures
            d.wf(),
            d@ == 0,
    {
        Duration { secs: 0, nanos: 0 }
    }
}

impl Duration {
    /// Well-formedness: the fraction is less than one second.
    pub closed spec fn wf(&self) -> bool {
        self.nanos < NANOS_PER_SEC
    }

    /// The span with the seconds and the fraction of `d`, the fraction
    /// taken below one second.
    pub closed spec fn of_std(d: core::time::Duration) -> Duration {
        Duration { secs: std_secs(d), nanos: (std_subsec_nanos(d) % 1_000_000_000) as u32 }
    }

    /// The span made of a span of the standard library is well-formed, and
    /// as long as its seconds and its fraction together.
    pub proof fn lemma_of_std(d: core::time::Duration)
        ensures
            Self::of_std(d).wf(),
            Self::of_std(d)@ == std_secs(d) as nat * 1_000_000_000 + (std_subsec_nanos(d)
                % 1_000_000_000) as nat,
    {
    }

    /// The span of `nanos` nanoseconds.
    pub closed spec fn of_nanos(nanos: nat) -> Duration {
        Duration { secs: (nanos / 1_000_000_000) as u64, nanos: (nanos % 1_000_000_000) as u32 }
    }

    /// The span of some nanoseconds is well-formed and, up to the longest
    /// span, as long as they are.
    pub proof fn lemma_of_nanos(nanos: nat)
        ensures
            Self::of_nanos(nanos).wf(),
            nanos <= max_nanos() ==> Self::of_nanos(nanos)@ == nanos,
    {
    }

    /// A well-formed span is no longer than [`max_nanos`].
    pub proof fn lemma_bounded(&self)
        requires
            self.wf(),
        ensures
            self@ <= max_nanos(),
    {
    }

    /// Two well-formed spans of the same length are the same value.
    pub proof fn lemma_view_injective(&self, other: &Duration)
        requires
            self.wf(),
            other.wf(),
            self@ == other@,
        ensures
            *self == *other,
    {
    }

    /// The span of `secs` seconds and `nanos` nanoseconds. Nanoseconds
    /// beyond one second carry over into the seconds, which must not
    /// overflow.
    pub fn new(secs: u64, nanos: u32) -> (d: Duration)
        requires
            secs + nanos / NANOS_PER_SEC <= u64::MAX,
        ensures
            d.wf(),
            d@ == secs as nat * 1_000_000_000 + nanos as nat,
    {
        let secs: u64 = secs + (nanos / NANOS_PER_SEC) as u64;
        let nanos: u32 = nanos % NANOS_PER_SEC;
        Duration { secs, nanos }
    }

    /// The empty span.
    pub fn zero() -> (d: Duration)
        ensures
            d.wf(),
            d@ == 0,
    {
        Duration { secs: 0, nanos: 0 }
    }

    /// The longest span.
    pub fn max_value() -> (d: Duration)
        ensures
            d.wf(),
            d@ == max_nanos(),
    {
        Duration { secs: u64::MAX, nanos: NANOS_PER_SEC - 1 }
    }

    /// The span of `secs` whole seconds.
    pub fn from_secs(secs: u64) -> (d: Duration)
        ensures
            d.wf(),
            d@ == secs as nat * 1_000_000_000,
    {
        Duration { secs, nanos: 0 }
    }

    /// The span of `millis` milliseconds.
    pub fn from_millis(millis: u64) -> (d: Duration)
        ensures
            d.wf(),
            d@ == millis as nat * 1_000_000,
    {
        Duration {
            secs: millis / MILLIS_PER_SEC,
            nanos: ((millis % MILLIS_PER_SEC) as u32) * NANOS_PER_MILLI,
        }
    }

    /// The span of `micros` microseconds.
    pub fn from_micros(micros: u64) -> (d: Duration)
        ensures
            d.wf(),
            d@ == micros as nat * 1_000,
    {
        Duration {
            secs: micros / MICROS_PER_SEC,
            nanos: ((micros % MICROS_PER_SEC) as u32) * NANOS_PER_MICRO,
        }
    }

    /// The span of `nanos` nanoseconds.
    pub fn from_nanos(nanos: u64) -> (d: Duration)
        ensures
            d.wf(),
            d@ == nanos,
    {
        Duration {
            secs: nanos / 1_000_000_000u64,
            nanos: (nanos % 1_000_000_000u64) as u32,
        }
    }

    /// Whether the span is empty.
    pub fn is_zero(&self) -> (zero: bool)
        ensures
            zero == (self@ == 0),
    {
        self.secs == 0 && self.nanos == 0
    }

    /// The whole seconds in the span.
    pub fn as_secs(&self) -> (secs: u64)
        requires
            self.wf(),
        ensures
            secs == self@ / 1_000_000_000,
    {
        self.secs
    }

    /// The fraction of a second in whole milliseconds.
    pub fn subsec_millis(&self) -> (millis: u32)
        requires
            self.wf(),
        ensures
            millis == (self@ % 1_000_000_000) / 1_000_000,
    {
        self.nanos / NANOS_PER_MILLI
    }

    /// The fraction of a second in whole microseconds.
    pub fn subsec_micros(&self) -> (micros: u32)
        requires
            self.wf(),
        ensures
            micros == (self@ % 1_000_000_000) / 1_000,
    {
        self.nanos / NANOS_PER_MICRO
    }

    /// The fraction of a second in nanoseconds.
    pub fn subsec_nanos(&self) -> (nanos: u32)
        requires
            self.wf(),
        ensures
            nanos == self@ % 1_000_000_000,
    {
        self.nanos
    }

    /// The span in whole milliseconds.
    pub fn as_millis(&self) -> (millis: u128)
        requires
            self.wf(),
        ensures
            millis == self@ / 1_000_000,
    {
        self.secs as u128 * 1_000u128 + (self.nanos / NANOS_PER_MILLI) as u128
    }

    /// The span in whole microseconds.
    pub fn as_micros(&self) -> (micros: u128)
        requires
            self.wf(),
        ensures
            micros == self@ / 1_000,
    {
        self.secs as u128 * 1_000_000u128 + (self.nanos / NANOS_PER_MICRO) as u128
    }

    /// The span in nanoseconds.
    pub fn as_nanos(&self) -> (nanos: u128)
        ensures
            nanos == self@,
    {
        self.secs as u128 * 1_000_000_000u128 + self.nanos as u128
    }

    /// The sum of two spans, or `None` if it is longer than the longest
    /// span.
    pub fn checked_add(self, rhs: Duration) -> (sum: Option<Duration>)
        requires
            self.wf(),
            rhs.wf(),
        ensures
            match sum {
                Some(d) => d.wf() && d@ == self@ + rhs@,
                None => self@ + rhs@ > max_nanos(),
            },
    {
        if let Some(mut secs) = self.secs.checked_add(rhs.secs) {
            let mut nanos: u32 = self.nanos + rhs.nanos;
            if nanos >= NANOS_PER_SEC {
                nanos -= NANOS_PER_SEC;
                if let Some(new_secs) = secs.checked_add(1) {
                    secs = new_secs;
                } else {
                    return None;
                }
            }
            Some(Duration { secs, nanos })
        } else {
            None
        }
    }

    /// The sum of two spans, or the longest span if the sum is longer.
    pub fn saturating_add(self, rhs: Duration) -> (sum: Duration)
        requires
            self.wf(),
            rhs.wf(),
        ensures
            sum.wf(),
            sum@ == if self@ + rhs@ > max_nanos() {
                max_nanos()
            } else {
                self@ + rhs@
            },
    {
        match self.checked_add(rhs) {
            Some(res) => res,
            None => Duration::max_value(),
        }
    }

    /// The difference of two spans, or `None` if `rhs` is the longer.
    pub fn checked_sub(self, rhs: Duration) -> (diff: Option<Duration>)
        requires
            self.wf(),
            rhs.wf(),
        ensures
            match diff {
                Some(d) => d.wf() && d@ == self@ - rhs@,
                None => self@ < rhs@,
            },
    {
        if let Some(mut secs) = self.secs.checked_sub(rhs.secs) {
            let nanos: u32 = if self.nanos >= rhs.nanos {
                self.nanos - rhs.nanos
            } else if let Some(sub_secs) = secs.checked_sub(1) {
                secs = sub_secs;
                self.nanos + NANOS_PER_SEC - rhs.nanos
            } else {
                return None;
            };
            Some(Duration { secs, nanos })
        } else {
            None
        }
    }

    /// The difference of two spans, or the empty span if `rhs` is the
    /// longer.
    pub fn saturating_sub(self, rhs: Duration) -> (diff: Duration)
        requires
            self.wf(),
            rhs.wf(),
        ensures
            diff.wf(),
            diff@ == if self@ < rhs@ {
                0
            } else {
                self@ - rhs@
            },
    {
        match self.checked_sub(rhs) {
            Some(res) => res,
            None => Duration::zero(),
        }
    }

    /// The span taken `rhs` times, or `None` if that is longer than the
    /// longest span.
    pub fn checked_mul(self, rhs: u32) -> (product: Option<Duration>)
        requires
            self.wf(),
        ensures
            match product {
                Some(d) => d.wf() && d@ == self@ * rhs,
                None => self@ * rhs > max_nanos(),
            },
    {
        assert(self.nanos as nat * rhs as nat <= 999_999_999 * 0xffff_ffff) by (nonlinear_arith)
            requires
                self.nanos <= 999_999_999,
                rhs <= 0xffff_ffff,
        ;
        // Multiplied as 64-bit numbers, the nanoseconds cannot overflow.
        let total_nanos: u64 = self.nanos as u64 * rhs as u64;
        let extra_secs: u64 = total_nanos / 1_000_000_000u64;
        let nanos: u32 = (total_nanos % 1_000_000_000u64) as u32;
        proof {
            let whole = self.secs as nat * rhs as nat;
            assert(self@ * rhs == whole * 1_000_000_000 + total_nanos) by (nonlinear_arith)
                requires
                    self@ == self.secs as nat * 1_000_000_000 + self.nanos as nat,
                    whole == self.secs as nat * rhs as nat,
                    total_nanos == self.nanos as nat * rhs as nat,
            ;
        }
        if let Some(s) = self.secs.checked_mul(rhs as u64) {
            if let Some(secs) = s.checked_add(extra_secs) {
                return Some(Duration { secs, nanos });
            }
        }
        None
    }

    /// The span taken `rhs` times, or the longest span if that is longer.
    pub fn saturating_mul(self, rhs: u32) -> (product: Duration)
        requires
            self.wf(),
        ensures
            product.wf(),
            product@ == if self@ * rhs > max_nanos() {
                max_nanos() as int
            } else {
                self@ * rhs
            },
    {
        match self.checked_mul(rhs) {
            Some(res) => res,
            None => Duration::max_value(),
        }
    }

    /// What dividing a span of `nanos` nanoseconds by `rhs` gives: the
    /// whole seconds and the fraction are divided apart, each rounded
    /// down, and the seconds that remain are divided as nanoseconds. The
    /// result is the exact quotient rounded down, or one nanosecond less.
    pub open spec fn divided(nanos: nat, rhs: u32) -> nat
        recommends
            rhs != 0,
    {
        let secs = nanos / 1_000_000_000;
        let frac = nanos % 1_000_000_000;
        (secs / rhs as nat) * 1_000_000_000 + frac / rhs as nat + (secs % rhs as nat)
            * 1_000_000_000 / rhs as nat
    }

    /// Dividing the parts apart loses at most one nanosecond against the
    /// exact quotient rounded down.
    pub proof fn lemma_divided_close(nanos: nat, rhs: u32)
        requires
            rhs != 0,
        ensures
            Self::divided(nanos, rhs) <= nanos / (rhs as nat) <= Self::divided(nanos, rhs) + 1,
    {
        let r = rhs as nat;
        let secs = nanos / 1_000_000_000;
        let frac = nanos % 1_000_000_000;
        let whole = secs / r;
        let carry = secs % r;
        let rest = carry * 1_000_000_000 + frac;
        let a = frac / r;
        let b = (carry * 1_000_000_000) / r;
        assert(secs == whole * r + carry) by {
            vstd::arithmetic::div_mod::lemma_fundamental_div_mod(secs as int, r as int);
            vstd::arithmetic::mul::lemma_mul_is_commutative(whole as int, r as int);
        }
        assert(nanos == rest + (whole * 1_000_000_000) * r) by (nonlinear_arith)
            requires
                nanos == secs * 1_000_000_000 + frac,
                secs == whole * r + carry,
                rest == carry * 1_000_000_000 + frac,
        ;
        assert(nanos / r == rest / r + whole * 1_000_000_000) by {
            vstd::arithmetic::div_mod::lemma_hoist_over_denominator(
                rest as int,
                (whole * 1_000_000_000) as int,
                r,
            );
        }
        assert(a + b <= rest / r <= a + b + 1) by (nonlinear_arith)
            requires
                r > 0,
                a == frac / r,
                b == (carry * 1_000_000_000) / r,
                rest == carry * 1_000_000_000 + frac,
        {
            let t = rest / r;
            assert(a * r <= frac < (a + 1) * r);
            assert(b * r <= carry * 1_000_000_000 < (b + 1) * r);
            assert(t * r <= rest < (t + 1) * r);
            assert((a + b) * r <= rest < (a + b + 2) * r);
        }
    }

    /// The span divided by `rhs`, or `None` if `rhs` is zero.
    pub fn checked_div(self, rhs: u32) -> (quotient: Option<Duration>)
        requires
            self.wf(),
        ensures
            match quotient {
                Some(d) => rhs != 0 && d.wf() && d@ == Self::divided(self@, rhs),
                None => rhs == 0,
            },
    {
        if rhs != 0 {
            let secs: u64 = self.secs / (rhs as u64);
            let carry: u64 = self.secs % (rhs as u64);
            assert(carry as nat * 1_000_000_000 <= 0xffff_ffff * 1_000_000_000) by (nonlinear_arith)
                requires
                    carry < rhs,
                    rhs <= 0xffff_ffff,
            ;
            let extra_nanos: u64 = carry * 1_000_000_000u64 / (rhs as u64);
            let own_nanos: u32 = self.nanos / rhs;
            assert(own_nanos + extra_nanos < 1_000_000_000) by (nonlinear_arith)
                requires
                    rhs > 0,
                    own_nanos == self.nanos as nat / rhs as nat,
                    extra_nanos == (carry as nat * 1_000_000_000) / rhs as nat,
                    self.nanos <= 999_999_999,
                    carry <= rhs - 1,
            {
                let r = rhs as nat;
                assert(own_nanos * r <= self.nanos);
                assert(extra_nanos * r <= carry as nat * 1_000_000_000);
                assert((own_nanos + extra_nanos) * r <= 999_999_999 + (r - 1) * 1_000_000_000);
                assert((own_nanos + extra_nanos) * r < 1_000_000_000 * r);
            }
            let nanos: u32 = own_nanos + (extra_nanos as u32);
            Some(Duration { secs, nanos })
        } else {
            None
        }
    }
}

impl core::ops::Add for Duration {
    type Output = Duration;

    /// The sum of two spans, which must not be longer than the longest
    /// span.
    fn add(self, rhs: Duration) -> (sum: Duration) {
        match self.checked_add(rhs) {
            Some(sum) => sum,
            None => vstd::pervasive::unreached(),
        }
    }
}

impl vstd::std_specs::ops::AddSpecImpl for Duration {
    open spec fn obeys_add_spec() -> bool {
        true
    }

    open spec fn add_req(self, rhs: Duration) -> bool {
        self.wf() && rhs.wf() && self@ + rhs@ <= max_nanos()
    }

    open spec fn add_spec(self, rhs: Duration) -> Duration {
        Duration::of_nanos(self@ + rhs@)
    }
}

impl core::ops::Sub for Duration {
    type Output = Duration;

    /// The difference of two spans, of which `rhs` must not be the
    /// longer.
    fn sub(self, rhs: Duration) -> (diff: Duration) {
        match self.checked_sub(rhs) {
            Some(diff) => diff,
            None => vstd::pervasive::unreached(),
        }
    }
}

impl vstd::std_specs::ops::SubSpecImpl for Duration {
    open spec fn obeys_sub_spec() -> bool {
        true
    }

    open spec fn sub_req(self, rhs: Duration) -> bool {
        self.wf() && rhs.wf() && self@ >= rhs@
    }

    open spec fn sub_spec(self, rhs: Duration) -> Duration {
        Duration::of_nanos((self@ - rhs@) as nat)
    }
}

impl core::ops::Mul<u32> for Duration {
    type Output = Duration;

    /// The span taken `rhs` times, which must not be longer than the
    /// longest span.
    fn mul(self, rhs: u32) -> (product: Duration) {
        match self.checked_mul(rhs) {
            Some(product) => product,
            None => vstd::pervasive::unreached(),
        }
    }
}

impl vstd::std_specs::ops::MulSpecImpl<u32> for Duration {
    open spec fn obeys_mul_spec() -> bool {
        true
    }

    open spec fn mul_req(self, rhs: u32) -> bool {
        self.wf() && self@ * rhs <= max_nanos()
    }

    open spec fn mul_spec(self, rhs: u32) -> Duration {
        Duration::of_nanos(self@ * rhs as nat)
    }
}

impl core::ops::Div<u32> for Duration {
    type Output = Duration;

    /// The span divided by `rhs`, which must not be zero.
    fn div(self, rhs: u32) -> (quotient: Duration) {
        match self.checked_div(rhs) {
            Some(quotient) => quotient,
            None => vstd::pervasive::unreached(),
        }
    }
}

impl vstd::std_specs::ops::DivSpecImpl<u32> for Duration {
    open spec fn obeys_div_spec() -> bool {
        true
    }

    open spec fn div_req(self, rhs: u32) -> bool {
        self.wf() && rhs != 0
    }

    open spec fn div_spec(self, rhs: u32) -> Duration {
        Duration::of_nanos(Self::divided(self@, rhs))
    }
}

impl core::ops::Mul<Duration> for u32 {
    type Output = Duration;

    /// The span `rhs` taken `self` times, which must not be longer than
    /// the longest span.
    fn mul(self, rhs: Duration) -> (product: Duration) {
        rhs * self
    }
}

impl vstd::std_specs::ops::MulSpecImpl<Duration> for u32 {
    open spec fn obeys_mul_spec() -> bool {
        true
    }

    open spec fn mul_req(self, rhs: Duration) -> bool {
        rhs.wf() && rhs@ * self <= max_nanos()
    }

    open spec fn mul_spec(self, rhs: Duration) -> Duration {
        Duration::of_nanos(rhs@ * self as nat)
    }
}

} // verus!
