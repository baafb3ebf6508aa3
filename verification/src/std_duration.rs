//! Conversions, comparisons and arithmetic between [`Duration`] and `core::time::Duration`.
//!
//! A `core::time::Duration` is read through its whole seconds and the nanoseconds past them,
//! named by `std_secs_of` and `std_nanos_of`; everything that follows is verified over those
//! parts.

use vstd::prelude::*;

use core::cmp::Ordering;
use core::time::Duration as StdDuration;

use crate::duration::{in_range, Duration};
use crate::error::ConversionRange;
use vstd::std_specs::ops::{AddSpecImpl, SubSpecImpl};

verus! {

/// The whole seconds of a `core::time::Duration`, as `as_secs` returns them.
pub uninterp spec fn std_secs_of(d: StdDuration) -> u64;

/// The nanoseconds past the whole seconds of a `core::time::Duration`, as `subsec_nanos`
/// returns them.
pub uninterp spec fn std_nanos_of(d: StdDuration) -> u32;

/// The span of a `core::time::Duration`, in nanoseconds.
pub open spec fn std_span(d: StdDuration) -> int {
    std_secs_of(d) * 1_000_000_000 + std_nanos_of(d)
}

/// Calls `core::time::Duration::as_secs`. Claimed: it returns the whole seconds of the duration,
/// a function of the duration alone.
#[verifier::external_body]
fn std_as_secs(d: &StdDuration) -> (r: u64)
    ensures
        r == std_secs_of(*d),
{
    d.as_secs()
}

/// Calls `core::time::Duration::subsec_nanos`. Claimed: it returns the nanoseconds past the
/// whole seconds, a function of the duration alone, and they are fewer than one billion, as
/// std documents.
#[verifier::external_body]
fn std_subsec_nanos(d: &StdDuration) -> (r: u32)
    ensures
        r == std_nanos_of(*d),
        r < 1_000_000_000,
{
    d.subsec_nanos()
}

/// Calls `core::time::Duration::new`, which panics only when the nanoseconds carry into seconds
/// that overflow; with fewer than one billion nanoseconds there is no carry, and std documents
/// that the duration then has exactly the given whole seconds and nanoseconds. That is what is
/// claimed.
#[verifier::external_body]
fn std_duration_new(secs: u64, nanos: u32) -> (r: StdDuration)
    requires
        nanos < 1_000_000_000,
    ensures
        std_secs_of(r) == secs,
        std_nanos_of(r) == nanos,
{
    StdDuration::new(secs, nanos)
}

/// The order of two integers.
pub open spec fn ordering_of(a: int, b: int) -> Ordering {
    if a < b {
        Ordering::Less
    } else if a == b {
        Ordering::Equal
    } else {
        Ordering::Greater
    }
}

impl Duration {
    /// Get the absolute value of the duration, as a `core::time::Duration`.
    pub(crate) fn abs_std(self) -> (r: StdDuration)
        ensures
            std_span(r) == crate::arith::abs(self@),
            std_nanos_of(r) < 1_000_000_000,
    {
        let (secs, nanos) = self.abs_parts();
        std_duration_new(secs, nanos)
    }
}

impl TryFrom<StdDuration> for Duration {
    type Error = ConversionRange;

    /// The same span as a `Duration`; an error if its whole seconds do not fit in an `i64`.
    fn try_from(original: StdDuration) -> (r: Result<Self, ConversionRange>)
        ensures
            r is Ok <==> std_secs_of(original) <= i64::MAX,
            r matches Ok(d) ==> d@ == std_span(original),
    {
        Duration::from_std_parts(std_as_secs(&original), std_subsec_nanos(&original))
    }
}

impl vstd::std_specs::convert::TryFromSpecImpl<StdDuration> for Duration {
    /// The contract is stated on `try_from` itself.
    open spec fn obeys_try_from_spec() -> bool {
        false
    }

    open spec fn try_from_spec(original: StdDuration) -> Result<Self, ConversionRange> {
        Err(ConversionRange)
    }
}

impl TryFrom<Duration> for StdDuration {
    type Error = ConversionRange;

    /// The same span as a `core::time::Duration`; an error if it is negative.
    fn try_from(duration: Duration) -> (r: Result<Self, ConversionRange>)
        ensures
            r is Ok <==> duration@ >= 0,
            r matches Ok(s) ==> std_span(s) == duration@ && std_nanos_of(s) < 1_000_000_000,
    {
        match duration.to_std_parts() {
            Ok(parts) => Ok(std_duration_new(parts.0, parts.1)),
            Err(err) => Err(err),
        }
    }
}

impl vstd::std_specs::convert::TryFromSpecImpl<Duration> for StdDuration {
    /// The contract is stated on `try_from` itself.
    open spec fn obeys_try_from_spec() -> bool {
        false
    }

    open spec fn try_from_spec(duration: Duration) -> Result<Self, ConversionRange> {
        Err(ConversionRange)
    }
}

impl PartialEq<StdDuration> for Duration {
    /// Whether the two spans are equal.
    fn eq(&self, rhs: &StdDuration) -> (r: bool) {
        self.eq_std_parts(std_as_secs(rhs), std_subsec_nanos(rhs))
    }
}

impl vstd::std_specs::cmp::PartialEqSpecImpl<StdDuration> for Duration {
    open spec fn obeys_eq_spec() -> bool {
        true
    }

    open spec fn eq_spec(&self, rhs: &StdDuration) -> bool {
        self@ == std_span(*rhs)
    }
}

impl PartialEq<Duration> for StdDuration {
    /// Whether the two spans are equal.
    fn eq(&self, rhs: &Duration) -> (r: bool) {
        rhs.eq_std_parts(std_as_secs(self), std_subsec_nanos(self))
    }
}

impl vstd::std_specs::cmp::PartialEqSpecImpl<Duration> for StdDuration {
    open spec fn obeys_eq_spec() -> bool {
        true
    }

    open spec fn eq_spec(&self, rhs: &Duration) -> bool {
        std_span(*self) == rhs@
    }
}

/// How the span of `d` compares with the span of `secs` whole seconds and `subsec_nanos`
/// nanoseconds, the parts of a `core::time::Duration`.
pub fn compare_std_parts(d: Duration, secs: u64, subsec_nanos: u32) -> (r: Ordering)
    requires
        subsec_nanos < 1_000_000_000,
    ensures
        r == Ordering::Less <==> d@ < secs * 1_000_000_000 + subsec_nanos,
        r == Ordering::Equal <==> d@ == secs * 1_000_000_000 + subsec_nanos,
        r == Ordering::Greater <==> d@ > secs * 1_000_000_000 + subsec_nanos,
{
    let parts = d.parts();
    let secs_i64 = match Duration::std_secs_as_i64(secs) {
        Some(v) => v,
        None => return Ordering::Less,
    };
    let nanos_i32 = Duration::std_nanos_as_i32(subsec_nanos);
    if parts.0 < secs_i64 {
        Ordering::Less
    } else if parts.0 > secs_i64 {
        Ordering::Greater
    } else if parts.1 < nanos_i32 {
        Ordering::Less
    } else if parts.1 > nanos_i32 {
        Ordering::Greater
    } else {
        Ordering::Equal
    }
}

impl PartialOrd<StdDuration> for Duration {
    /// How the two spans compare.
    fn partial_cmp(&self, rhs: &StdDuration) -> (r: Option<Ordering>) {
        Some(compare_std_parts(*self, std_as_secs(rhs), std_subsec_nanos(rhs)))
    }
}

impl vstd::std_specs::cmp::PartialOrdSpecImpl<StdDuration> for Duration {
    open spec fn obeys_partial_cmp_spec() -> bool {
        true
    }

    open spec fn partial_cmp_spec(&self, rhs: &StdDuration) -> Option<Ordering> {
        Some(ordering_of(self@, std_span(*rhs)))
    }
}

impl PartialOrd<Duration> for StdDuration {
    /// How the two spans compare.
    fn partial_cmp(&self, rhs: &Duration) -> (r: Option<Ordering>) {
        match compare_std_parts(*rhs, std_as_secs(self), std_subsec_nanos(self)) {
            Ordering::Less => Some(Ordering::Greater),
            Ordering::Equal => Some(Ordering::Equal),
            Ordering::Greater => Some(Ordering::Less),
        }
    }
}

impl vstd::std_specs::cmp::PartialOrdSpecImpl<Duration> for StdDuration {
    open spec fn obeys_partial_cmp_spec() -> bool {
        true
    }

    open spec fn partial_cmp_spec(&self, rhs: &Duration) -> Option<Ordering> {
        Some(ordering_of(std_span(*self), rhs@))
    }
}

impl core::ops::Add<StdDuration> for Duration {
    type Output = Self;

    /// Adds a `core::time::Duration`; it must fit in a `Duration`, and so must the sum.
    fn add(self, std_duration: StdDuration) -> (r: Self) {
        let rhs = Self::try_from(std_duration).unwrap();
        self + rhs
    }
}

impl AddSpecImpl<StdDuration> for Duration {
    open spec fn obeys_add_spec() -> bool {
        true
    }

    open spec fn add_req(self, rhs: StdDuration) -> bool {
        std_secs_of(rhs) <= i64::MAX && in_range(self@ + std_span(rhs))
    }

    open spec fn add_spec(self, rhs: StdDuration) -> Self {
        Duration::from_nanos(self@ + std_span(rhs))
    }
}

impl core::ops::Add<Duration> for StdDuration {
    type Output = Duration;

    /// Adds a `Duration` to a `core::time::Duration`, giving a `Duration`.
    fn add(self, rhs: Duration) -> (r: Duration) {
        rhs + self
    }
}

impl AddSpecImpl<Duration> for StdDuration {
    open spec fn obeys_add_spec() -> bool {
        true
    }

    open spec fn add_req(self, rhs: Duration) -> bool {
        std_secs_of(self) <= i64::MAX && in_range(rhs@ + std_span(self))
    }

    open spec fn add_spec(self, rhs: Duration) -> Duration {
        Duration::from_nanos(rhs@ + std_span(self))
    }
}

impl core::ops::Sub<StdDuration> for Duration {
    type Output = Self;

    /// Subtracts a `core::time::Duration`; it must fit in a `Duration`, and so must the
    /// difference.
    fn sub(self, rhs: StdDuration) -> (r: Self) {
        let rhs = Self::try_from(rhs).unwrap();
        self - rhs
    }
}

impl SubSpecImpl<StdDuration> for Duration {
    open spec fn obeys_sub_spec() -> bool {
        true
    }

    open spec fn sub_req(self, rhs: StdDuration) -> bool {
        std_secs_of(rhs) <= i64::MAX && in_range(self@ - std_span(rhs))
    }

    open spec fn sub_spec(self, rhs: StdDuration) -> Self {
        Duration::from_nanos(self@ - std_span(rhs))
    }
}

impl core::ops::Sub<Duration> for StdDuration {
    type Output = Duration;

    /// Subtracts a `Duration` from a `core::time::Duration`, giving a `Duration`.
    fn sub(self, rhs: Duration) -> (r: Duration) {
        let lhs = Duration::try_from(self).unwrap();
        lhs - rhs
    }
}

impl SubSpecImpl<Duration> for StdDuration {
    open spec fn obeys_sub_spec() -> bool {
        true
    }

    open spec fn sub_req(self, rhs: Duration) -> bool {
        std_secs_of(self) <= i64::MAX && in_range(std_span(self) - rhs@)
    }

    open spec fn sub_spec(self, rhs: Duration) -> Duration {
        Duration::from_nanos(std_span(self) - rhs@)
    }
}

impl Duration {
    /// Add a `core::time::Duration` in place; it must fit in a `Duration`, and so must the sum.
    pub fn add_assign_std(&mut self, rhs: StdDuration)
        requires
            std_secs_of(rhs) <= i64::MAX,
            in_range(old(self)@ + std_span(rhs)),
        ensures
            final(self)@ == old(self)@ + std_span(rhs),
    {
        let rhs = Self::try_from(rhs).unwrap();
        self.add_assign(rhs);
    }

    /// Subtract a `core::time::Duration` in place; it must fit in a `Duration`, and so must the
    /// difference.
    pub fn sub_assign_std(&mut self, rhs: StdDuration)
        requires
            std_secs_of(rhs) <= i64::MAX,
            in_range(old(self)@ - std_span(rhs)),
        ensures
            final(self)@ == old(self)@ - std_span(rhs),
    {
        let rhs = Self::try_from(rhs).unwrap();
        self.sub_assign(rhs);
    }
}

/// Subtract a `Duration` from a `core::time::Duration` in place. The std duration must fit in a
/// `Duration`, and the difference must be neither negative nor out of range.
pub fn std_sub_assign(lhs: &mut StdDuration, rhs: Duration)
    requires
        std_secs_of(*old(lhs)) <= i64::MAX,
        in_range(std_span(*old(lhs)) - rhs@),
        std_span(*old(lhs)) - rhs@ >= 0,
    ensures
        std_span(*final(lhs)) == std_span(*old(lhs)) - rhs@,
{
    let lhs_duration = Duration::try_from(*lhs).unwrap();
    let difference = lhs_duration.checked_sub(rhs).unwrap();
    *lhs = StdDuration::try_from(difference).unwrap();
}

} // verus!
