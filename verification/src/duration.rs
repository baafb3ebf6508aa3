//! The [`Duration`] struct: a signed span of time with nanosecond precision.

use vstd::prelude::*;

use crate::error::ConversionRange;
use vstd::std_specs::ops::{AddSpec, MulSpec, NegSpec, SubSpec};
use crate::arith::{abs, lemma_tdiv_general, lemma_tdiv_nested, lemma_tdiv_pos, lemma_tdiv_unique, tdiv, trem};

verus! {

/// Nanoseconds in one second.
pub const NANOS_PER_SECOND: i64 = 1_000_000_000;

/// The smallest span a [`Duration`] can hold, in nanoseconds, as an `i128`.
const MIN_NANOS: i128 = -9_223_372_036_854_775_808_999_999_999;

/// The largest span a [`Duration`] can hold, in nanoseconds, as an `i128`.
const MAX_NANOS: i128 = 9_223_372_036_854_775_807_999_999_999;

/// The smallest span a [`Duration`] can hold, in nanoseconds.
pub open spec fn min_nanos() -> int {
    i64::MIN * 1_000_000_000 - 999_999_999
}

/// The largest span a [`Duration`] can hold, in nanoseconds.
pub open spec fn max_nanos() -> int {
    i64::MAX * 1_000_000_000 + 999_999_999
}

/// Whether a span of `t` nanoseconds can be held by a [`Duration`].
pub open spec fn in_range(t: int) -> bool {
    min_nanos() <= t <= max_nanos()
}

/// The span of `t` nanoseconds, saturated to the bounds of [`Duration`].
pub open spec fn clamp(t: int) -> int {
    if t > max_nanos() {
        max_nanos()
    } else if t < min_nanos() {
        min_nanos()
    } else {
        t
    }
}

/// The total span of a sequence of durations, in nanoseconds.
pub open spec fn total(durations: Seq<Duration>) -> int
    decreases durations.len(),
{
    if durations.len() == 0 {
        0
    } else {
        total(durations.drop_last()) + durations.last()@
    }
}

/// A span of time with nanosecond precision.
///
/// Each `Duration` is composed of a whole number of seconds and a fractional part represented in
/// nanoseconds. Unlike `core::time::Duration`, the span may be negative.
///
/// Its model (`@`) is the whole span in nanoseconds.
#[derive(Clone, Copy, Debug, PartialEq, Eq, Hash, PartialOrd, Ord)]
pub struct Duration {
    /// Number of whole seconds.
    seconds: i64,
    /// Number of nanoseconds within the second. The sign always matches the `seconds` field.
    nanoseconds: i32,
}

impl View for Duration {
    type V = int;

    closed spec fn view(&self) -> int {
        self.seconds * 1_000_000_000 + self.nanoseconds
    }
}

impl Duration {
    /// A duration of zero length.
    pub fn zero() -> (r: Duration)
        ensures
            r@ == 0,
    {
        Duration { seconds: 0, nanoseconds: 0 }
    }

    /// The minimum possible duration. Adding any negative duration to this will cause an overflow.
    pub fn minimum() -> (r: Duration)
        ensures
            r@ == min_nanos(),
    {
        Duration { seconds: i64::MIN, nanoseconds: -999_999_999 }
    }

    /// The maximum possible duration. Adding any positive duration to this will cause an overflow.
    pub fn maximum() -> (r: Duration)
        ensures
            r@ == max_nanos(),
    {
        Duration { seconds: i64::MAX, nanoseconds: 999_999_999 }
    }

    /// The fields are in canonical form: the nanoseconds lie strictly within one second and
    /// never have a sign opposite to that of the seconds.
    #[verifier::type_invariant]
    pub closed spec fn wf(self) -> bool {
        &&& -1_000_000_000 < self.nanoseconds < 1_000_000_000
        &&& self.seconds > 0 ==> self.nanoseconds >= 0
        &&& self.seconds < 0 ==> self.nanoseconds <= 0
    }

    /// The canonical `Duration` of a span of `t` nanoseconds.
    pub closed spec fn from_nanos(t: int) -> Duration {
        Duration { seconds: tdiv(t, 1_000_000_000) as i64, nanoseconds: trem(t, 1_000_000_000) as i32 }
    }

    /// A well-formed duration is the canonical one of its span, and its span is in range.
    proof fn lemma_canonical(d: Duration)
        requires
            d.wf(),
        ensures
            in_range(d@),
            tdiv(d@, 1_000_000_000) == d.seconds,
            trem(d@, 1_000_000_000) == d.nanoseconds,
            Duration::from_nanos(d@) == d,
    {
        lemma_tdiv_unique(d@, 1_000_000_000, d.seconds as int, d.nanoseconds as int);
    }

    /// Every span in range has a canonical, well-formed `Duration`.
    pub proof fn lemma_from_nanos(t: int)
        requires
            in_range(t),
        ensures
            Duration::from_nanos(t).wf(),
            Duration::from_nanos(t)@ == t,
    {
        lemma_tdiv_pos(t, 1_000_000_000);
    }

    /// A duration is the canonical duration of its span, and its span is in range.
    pub proof fn lemma_from_duration(d: Duration)
        requires
            d.wf(),
        ensures
            in_range(d@),
            Duration::from_nanos(d@) == d,
    {
        Self::lemma_canonical(d);
    }

    /// Two durations with the same span are the same duration.
    pub proof fn lemma_view_injective(a: Duration, b: Duration)
        requires
            a.wf(),
            b.wf(),
            a@ == b@,
        ensures
            a == b,
    {
        Self::lemma_canonical(a);
        Self::lemma_canonical(b);
    }

    /// Create a new `Duration` without checking the validity of the components.
    pub(crate) fn new_unchecked(seconds: i64, nanoseconds: i32) -> (r: Self)
        requires
            -1_000_000_000 < nanoseconds < 1_000_000_000,
            seconds > 0 ==> nanoseconds >= 0,
            seconds < 0 ==> nanoseconds <= 0,
        ensures
            r@ == seconds * 1_000_000_000 + nanoseconds,
    {
        Duration { seconds, nanoseconds }
    }

    /// Check if a duration is exactly zero.
    pub fn is_zero(self) -> (r: bool)
        ensures
            r == (self@ == 0),
    {
        proof { use_type_invariant(&self); }
        self.seconds == 0 && self.nanoseconds == 0
    }

    /// Check if a duration is negative.
    pub fn is_negative(self) -> (r: bool)
        ensures
            r == (self@ < 0),
    {
        proof { use_type_invariant(&self); }
        self.seconds < 0 || self.nanoseconds < 0
    }

    /// Check if a duration is positive.
    pub fn is_positive(self) -> (r: bool)
        ensures
            r == (self@ > 0),
    {
        proof { use_type_invariant(&self); }
        self.seconds > 0 || self.nanoseconds > 0
    }

    /// Get the absolute value of the duration.
    ///
    /// The whole seconds saturate: a duration of `i64::MIN` whole seconds (and some fraction of a
    /// second) has `i64::MAX` whole seconds (and the same fraction, made positive) as its absolute
    /// value.
    pub fn abs(self) -> (r: Self)
        ensures
            self@ > i64::MIN * 1_000_000_000 ==> r@ == abs(self@),
            self@ <= i64::MIN * 1_000_000_000 ==> r@ == -self@ - 1_000_000_000,
    {
        proof { use_type_invariant(&self); }
        let seconds = if self.seconds == i64::MIN {
            i64::MAX
        } else if self.seconds < 0 {
            -self.seconds
        } else {
            self.seconds
        };
        let nanoseconds = if self.nanoseconds < 0 {
            -self.nanoseconds
        } else {
            self.nanoseconds
        };
        Self::new_unchecked(seconds, nanoseconds)
    }

    /// Create a new `Duration` with the provided seconds and nanoseconds. If nanoseconds is at
    /// least ±10<sup>9</sup>, it will wrap to the number of seconds.
    pub fn new(seconds: i64, nanoseconds: i32) -> (r: Self)
        requires
            i64::MIN <= seconds + tdiv(nanoseconds as int, 1_000_000_000) <= i64::MAX,
        ensures
            r@ == seconds * 1_000_000_000 + nanoseconds,
    {
        proof { lemma_tdiv_pos(nanoseconds as int, 1_000_000_000); }
        let mut seconds = seconds + (nanoseconds as i64) / 1_000_000_000;
        let mut nanoseconds = nanoseconds % 1_000_000_000;

        if seconds > 0 && nanoseconds < 0 {
            seconds -= 1;
            nanoseconds += 1_000_000_000;
        } else if seconds < 0 && nanoseconds > 0 {
            seconds += 1;
            nanoseconds -= 1_000_000_000;
        }

        Self::new_unchecked(seconds, nanoseconds)
    }

    /// Create a new `Duration` with the given number of weeks. Equivalent to
    /// `Duration::seconds(weeks * 604_800)`.
    pub fn weeks(weeks: i64) -> (r: Self)
        requires
            i64::MIN <= weeks * 604_800 <= i64::MAX,
        ensures
            r@ == weeks * 604_800 * 1_000_000_000,
    {
        Self::seconds(weeks * 604_800)
    }

    /// Create a new `Duration` with the given number of days. Equivalent to
    /// `Duration::seconds(days * 86_400)`.
    pub fn days(days: i64) -> (r: Self)
        requires
            i64::MIN <= days * 86_400 <= i64::MAX,
        ensures
            r@ == days * 86_400 * 1_000_000_000,
    {
        Self::seconds(days * 86_400)
    }

    /// Create a new `Duration` with the given number of hours. Equivalent to
    /// `Duration::seconds(hours * 3_600)`.
    pub fn hours(hours: i64) -> (r: Self)
        requires
            i64::MIN <= hours * 3_600 <= i64::MAX,
        ensures
            r@ == hours * 3_600 * 1_000_000_000,
    {
        Self::seconds(hours * 3_600)
    }

    /// Create a new `Duration` with the given number of minutes. Equivalent to
    /// `Duration::seconds(minutes * 60)`.
    pub fn minutes(minutes: i64) -> (r: Self)
        requires
            i64::MIN <= minutes * 60 <= i64::MAX,
        ensures
            r@ == minutes * 60 * 1_000_000_000,
    {
        Self::seconds(minutes * 60)
    }

    /// Create a new `Duration` with the given number of seconds.
    pub fn seconds(seconds: i64) -> (r: Self)
        ensures
            r@ == seconds * 1_000_000_000,
    {
        Self::new_unchecked(seconds, 0)
    }

    /// Create a new `Duration` with the given number of milliseconds.
    pub fn milliseconds(milliseconds: i64) -> (r: Self)
        ensures
            r@ == milliseconds * 1_000_000,
    {
        proof { lemma_tdiv_pos(milliseconds as int, 1_000); }
        Self::new_unchecked(
            milliseconds / 1_000,
            ((milliseconds % 1_000) * 1_000_000) as i32,
        )
    }

    /// Create a new `Duration` with the given number of microseconds.
    pub fn microseconds(microseconds: i64) -> (r: Self)
        ensures
            r@ == microseconds * 1_000,
    {
        proof { lemma_tdiv_pos(microseconds as int, 1_000_000); }
        Self::new_unchecked(
            microseconds / 1_000_000,
            ((microseconds % 1_000_000) * 1_000) as i32,
        )
    }

    /// Create a new `Duration` with the given number of nanoseconds.
    pub fn nanoseconds(nanoseconds: i64) -> (r: Self)
        ensures
            r@ == nanoseconds,
    {
        proof { lemma_tdiv_pos(nanoseconds as int, 1_000_000_000); }
        Self::new_unchecked(
            nanoseconds / 1_000_000_000,
            (nanoseconds % 1_000_000_000) as i32,
        )
    }

    /// Create a new `Duration` with the given number of nanoseconds, which must lie within the
    /// range of `Duration`.
    pub(crate) fn nanoseconds_i128(nanoseconds: i128) -> (r: Self)
        requires
            in_range(nanoseconds as int),
        ensures
            r@ == nanoseconds,
    {
        proof { lemma_tdiv_pos(nanoseconds as int, 1_000_000_000); }
        Self::new_unchecked(
            (nanoseconds / 1_000_000_000) as i64,
            (nanoseconds % 1_000_000_000) as i32,
        )
    }

    /// Get the number of whole weeks in the duration.
    pub fn whole_weeks(self) -> (r: i64)
        ensures
            r == tdiv(self@, 604_800_000_000_000),
    {
        proof { lemma_tdiv_nested(self@, 1_000_000_000, 604_800); }
        self.whole_seconds() / 604_800
    }

    /// Get the number of whole days in the duration.
    pub fn whole_days(self) -> (r: i64)
        ensures
            r == tdiv(self@, 86_400_000_000_000),
    {
        proof { lemma_tdiv_nested(self@, 1_000_000_000, 86_400); }
        self.whole_seconds() / 86_400
    }

    /// Get the number of whole hours in the duration.
    pub fn whole_hours(self) -> (r: i64)
        ensures
            r == tdiv(self@, 3_600_000_000_000),
    {
        proof { lemma_tdiv_nested(self@, 1_000_000_000, 3_600); }
        self.whole_seconds() / 3_600
    }

    /// Get the number of whole minutes in the duration.
    pub fn whole_minutes(self) -> (r: i64)
        ensures
            r == tdiv(self@, 60_000_000_000),
    {
        proof { lemma_tdiv_nested(self@, 1_000_000_000, 60); }
        self.whole_seconds() / 60
    }

    /// Get the number of whole seconds in the duration.
    pub fn whole_seconds(self) -> (r: i64)
        ensures
            r == tdiv(self@, 1_000_000_000),
    {
        proof {
            use_type_invariant(&self);
            Self::lemma_canonical(self);
        }
        self.seconds
    }

    /// Get the number of whole milliseconds in the duration.
    pub fn whole_milliseconds(self) -> (r: i128)
        ensures
            r == tdiv(self@, 1_000_000),
    {
        proof {
            use_type_invariant(&self);
            lemma_tdiv_pos(self.nanoseconds as int, 1_000_000);
            lemma_tdiv_unique(
                self@,
                1_000_000,
                self.seconds * 1_000 + tdiv(self.nanoseconds as int, 1_000_000),
                trem(self.nanoseconds as int, 1_000_000),
            );
        }
        self.seconds as i128 * 1_000 + self.nanoseconds as i128 / 1_000_000
    }

    /// Get the number of milliseconds past the number of whole seconds.
    ///
    /// Always in the range `-1_000..1_000`.
    pub fn subsec_milliseconds(self) -> (r: i16)
        ensures
            r == tdiv(trem(self@, 1_000_000_000), 1_000_000),
            -1_000 < r < 1_000,
    {
        proof {
            use_type_invariant(&self);
            Self::lemma_canonical(self);
            lemma_tdiv_pos(self.nanoseconds as int, 1_000_000);
        }
        (self.nanoseconds / 1_000_000) as i16
    }

    /// Get the number of whole microseconds in the duration.
    pub fn whole_microseconds(self) -> (r: i128)
        ensures
            r == tdiv(self@, 1_000),
    {
        proof {
            use_type_invariant(&self);
            lemma_tdiv_pos(self.nanoseconds as int, 1_000);
            lemma_tdiv_unique(
                self@,
                1_000,
                self.seconds * 1_000_000 + tdiv(self.nanoseconds as int, 1_000),
                trem(self.nanoseconds as int, 1_000),
            );
        }
        self.seconds as i128 * 1_000_000 + self.nanoseconds as i128 / 1_000
    }

    /// Get the number of microseconds past the number of whole seconds.
    ///
    /// Always in the range `-1_000_000..1_000_000`.
    pub fn subsec_microseconds(self) -> (r: i32)
        ensures
            r == tdiv(trem(self@, 1_000_000_000), 1_000),
            -1_000_000 < r < 1_000_000,
    {
        proof {
            use_type_invariant(&self);
            Self::lemma_canonical(self);
            lemma_tdiv_pos(self.nanoseconds as int, 1_000);
        }
        self.nanoseconds / 1_000
    }

    /// Get the number of nanoseconds in the duration.
    pub fn whole_nanoseconds(self) -> (r: i128)
        ensures
            r == self@,
    {
        self.seconds as i128 * 1_000_000_000 + self.nanoseconds as i128
    }

    /// Get the number of nanoseconds past the number of whole seconds.
    ///
    /// The returned value will always be in the range `-1_000_000_000..1_000_000_000`.
    pub fn subsec_nanoseconds(self) -> (r: i32)
        ensures
            r == trem(self@, 1_000_000_000),
            -1_000_000_000 < r < 1_000_000_000,
    {
        proof {
            use_type_invariant(&self);
            Self::lemma_canonical(self);
        }
        self.nanoseconds
    }

    /// Computes `self + rhs`, returning `None` if an overflow occurred.
    pub fn checked_add(self, rhs: Self) -> (r: Option<Self>)
        ensures
            r is Some <==> in_range(self@ + rhs@),
            r matches Some(d) ==> d@ == self@ + rhs@,
    {
        proof {
            use_type_invariant(&self);
            use_type_invariant(&rhs);
        }
        let mut seconds = match self.seconds.checked_add(rhs.seconds) {
            Some(seconds) => seconds,
            None => return None,
        };
        let mut nanoseconds = self.nanoseconds + rhs.nanoseconds;

        if nanoseconds >= 1_000_000_000 || seconds < 0 && nanoseconds > 0 {
            nanoseconds -= 1_000_000_000;
            seconds = match seconds.checked_add(1) {
                Some(seconds) => seconds,
                None => return None,
            };
        } else if nanoseconds <= -1_000_000_000 || seconds > 0 && nanoseconds < 0 {
            nanoseconds += 1_000_000_000;
            seconds = match seconds.checked_sub(1) {
                Some(seconds) => seconds,
                None => return None,
            };
        }

        Some(Self::new_unchecked(seconds, nanoseconds))
    }

    /// Computes `self - rhs`, returning `None` if an overflow occurred.
    pub fn checked_sub(self, rhs: Self) -> (r: Option<Self>)
        ensures
            r is Some <==> in_range(self@ - rhs@),
            r matches Some(d) ==> d@ == self@ - rhs@,
    {
        proof {
            use_type_invariant(&self);
            use_type_invariant(&rhs);
            Self::lemma_canonical(self);
            Self::lemma_canonical(rhs);
        }
        // The spans fit in an `i128` with room for their difference.
        let nanoseconds = self.whole_nanoseconds() - rhs.whole_nanoseconds();
        if nanoseconds < MIN_NANOS || nanoseconds > MAX_NANOS {
            return None;
        }
        Some(Self::nanoseconds_i128(nanoseconds))
    }

    /// Computes `self + rhs`, saturating if an overflow occurred.
    pub fn saturating_add(self, rhs: Self) -> (r: Self)
        ensures
            r@ == clamp(self@ + rhs@),
    {
        proof {
            use_type_invariant(&self);
            use_type_invariant(&rhs);
        }
        let mut seconds = match self.seconds.checked_add(rhs.seconds) {
            Some(seconds) => seconds,
            None => {
                if self.seconds > 0 {
                    return Self::maximum();
                }
                return Self::minimum();
            },
        };
        let mut nanoseconds = self.nanoseconds + rhs.nanoseconds;

        if nanoseconds >= 1_000_000_000 || seconds < 0 && nanoseconds > 0 {
            nanoseconds -= 1_000_000_000;
            seconds = match seconds.checked_add(1) {
                Some(seconds) => seconds,
                None => return Self::maximum(),
            };
        } else if nanoseconds <= -1_000_000_000 || seconds > 0 && nanoseconds < 0 {
            nanoseconds += 1_000_000_000;
            seconds = match seconds.checked_sub(1) {
                Some(seconds) => seconds,
                None => return Self::minimum(),
            };
        }

        Self::new_unchecked(seconds, nanoseconds)
    }

    /// Computes `self - rhs`, saturating if an overflow occurred.
    pub fn saturating_sub(self, rhs: Self) -> (r: Self)
        ensures
            r@ == clamp(self@ - rhs@),
    {
        proof {
            use_type_invariant(&self);
            use_type_invariant(&rhs);
            Self::lemma_canonical(self);
            Self::lemma_canonical(rhs);
        }
        // The spans fit in an `i128` with room for their difference.
        let nanoseconds = self.whole_nanoseconds() - rhs.whole_nanoseconds();
        if nanoseconds > MAX_NANOS {
            Self::maximum()
        } else if nanoseconds < MIN_NANOS {
            Self::minimum()
        } else {
            Self::nanoseconds_i128(nanoseconds)
        }
    }

    /// How a product splits into whole seconds and the rest, and how the signs of the parts agree.
    proof fn lemma_mul_parts(s: int, n: int, rhs: int)
        requires
            -1_000_000_000 < n < 1_000_000_000,
            s > 0 ==> n >= 0,
            s < 0 ==> n <= 0,
            i32::MIN <= rhs <= i32::MAX,
        ensures
            (s * 1_000_000_000 + n) * rhs == (s * rhs) * 1_000_000_000 + n * rhs,
            s * rhs > 0 ==> n * rhs >= 0,
            s * rhs < 0 ==> n * rhs <= 0,
            s * rhs == 0 ==> (s == 0 || n * rhs == 0),
            -1_000_000_000 * 2_147_483_648 < n * rhs < 1_000_000_000 * 2_147_483_648,
            (s > 0 && rhs > 0 || s < 0 && rhs < 0) ==> s * rhs > 0,
            !(s > 0 && rhs > 0 || s < 0 && rhs < 0) ==> s * rhs <= 0,
    {
        assert((s > 0 && rhs > 0 || s < 0 && rhs < 0) ==> s * rhs > 0) by (nonlinear_arith);
        assert(!(s > 0 && rhs > 0 || s < 0 && rhs < 0) ==> s * rhs <= 0) by (nonlinear_arith);
        assert((s * 1_000_000_000 + n) * rhs == (s * rhs) * 1_000_000_000 + n * rhs)
            by (nonlinear_arith);
        assert(s * rhs > 0 ==> n * rhs >= 0) by (nonlinear_arith)
            requires
                s > 0 ==> n >= 0,
                s < 0 ==> n <= 0,
        ;
        assert(s * rhs < 0 ==> n * rhs <= 0) by (nonlinear_arith)
            requires
                s > 0 ==> n >= 0,
                s < 0 ==> n <= 0,
        ;
        assert(s * rhs == 0 ==> (s == 0 || n * rhs == 0)) by (nonlinear_arith);
        assert(-1_000_000_000 * 2_147_483_648 < n * rhs < 1_000_000_000 * 2_147_483_648)
            by (nonlinear_arith)
            requires
                -1_000_000_000 < n < 1_000_000_000,
                -2_147_483_648 <= rhs <= 2_147_483_647,
        ;
    }

    /// Computes `self * rhs`, returning `None` if an overflow occurred.
    pub fn checked_mul(self, rhs: i32) -> (r: Option<Self>)
        ensures
            r is Some <==> in_range(self@ * rhs),
            r matches Some(d) ==> d@ == self@ * rhs,
    {
        proof {
            use_type_invariant(&self);
            Self::lemma_mul_parts(self.seconds as int, self.nanoseconds as int, rhs as int);
        }
        // Multiply nanoseconds as i64, because it cannot overflow that way.
        let total_nanos = self.nanoseconds as i64 * rhs as i64;
        let extra_secs = total_nanos / 1_000_000_000;
        let nanoseconds = (total_nanos % 1_000_000_000) as i32;
        proof { lemma_tdiv_pos(total_nanos as int, 1_000_000_000); }
        let seconds = match self.seconds.checked_mul(rhs as i64) {
            Some(seconds) => seconds,
            None => return None,
        };
        let seconds = match seconds.checked_add(extra_secs) {
            Some(seconds) => seconds,
            None => return None,
        };
        Some(Self::new_unchecked(seconds, nanoseconds))
    }

    /// Computes `self * rhs`, saturating if an overflow occurred.
    pub fn saturating_mul(self, rhs: i32) -> (r: Self)
        ensures
            r@ == clamp(self@ * rhs),
    {
        proof {
            use_type_invariant(&self);
            Self::lemma_canonical(self);
            Self::lemma_product_fits(self@, rhs as int);
        }
        // The span times any `i32` fits in an `i128`.
        let nanoseconds = self.whole_nanoseconds() * (rhs as i128);
        if nanoseconds > MAX_NANOS {
            Self::maximum()
        } else if nanoseconds < MIN_NANOS {
            Self::minimum()
        } else {
            Self::nanoseconds_i128(nanoseconds)
        }
    }

    /// A span in range times an `i32` fits in an `i128`.
    proof fn lemma_product_fits(v: int, rhs: int)
        requires
            in_range(v),
            i32::MIN <= rhs <= i32::MAX,
        ensures
            i128::MIN <= v * rhs <= i128::MAX,
    {
        let a = abs(v);
        let b = abs(rhs);
        assert(a * b <= 10_000_000_000_000_000_000_000_000_000 * b) by (nonlinear_arith)
            requires
                0 <= a <= 10_000_000_000_000_000_000_000_000_000,
                0 <= b,
        ;
        assert(10_000_000_000_000_000_000_000_000_000 * b <= 10_000_000_000_000_000_000_000_000_000 * 2_147_483_648) by (nonlinear_arith)
            requires
                0 <= b <= 2_147_483_648,
        ;
        assert(abs(v * rhs) == a * b) by (nonlinear_arith)
            requires
                a == abs(v),
                b == abs(rhs),
        ;
    }

    /// Computes `self / rhs`, returning `None` if `rhs == 0` or if the result would overflow.
    /// The quotient of the spans is rounded toward zero.
    pub fn checked_div(self, rhs: i32) -> (r: Option<Self>)
        ensures
            r is Some <==> rhs != 0 && in_range(tdiv(self@, rhs as int)),
            r matches Some(d) ==> d@ == tdiv(self@, rhs as int),
    {
        proof {
            use_type_invariant(&self);
            Self::lemma_canonical(self);
        }
        if rhs == 0 {
            return None;
        }
        let quotient = match self.whole_nanoseconds().checked_div(rhs as i128) {
            Some(quotient) => quotient,
            None => return None,
        };
        proof { lemma_tdiv_general(self@, rhs as int); }
        if quotient < MIN_NANOS || quotient > MAX_NANOS {
            return None;
        }
        Some(Self::nanoseconds_i128(quotient))
    }
}

impl Duration {
    /// The duration of `secs` whole seconds and `subsec_nanos` nanoseconds, the parts of a
    /// `core::time::Duration`. An error is returned if the seconds do not fit in an `i64`.
    pub fn from_std_parts(secs: u64, subsec_nanos: u32) -> (r: Result<Duration, ConversionRange>)
        requires
            subsec_nanos < 1_000_000_000,
        ensures
            r is Ok <==> secs <= i64::MAX,
            r matches Ok(d) ==> d@ == secs * 1_000_000_000 + subsec_nanos,
    {
        if secs > i64::MAX as u64 {
            return Err(ConversionRange);
        }
        Ok(Self::new(secs as i64, subsec_nanos as i32))
    }

    /// Whether the duration equals the duration of `secs` whole seconds and `subsec_nanos`
    /// nanoseconds, the parts of a `core::time::Duration`.
    pub fn eq_std_parts(self, secs: u64, subsec_nanos: u32) -> (r: bool)
        requires
            subsec_nanos < 1_000_000_000,
        ensures
            r == (self@ == secs * 1_000_000_000 + subsec_nanos),
    {
        match Self::from_std_parts(secs, subsec_nanos) {
            Ok(other) => {
                proof {
                    use_type_invariant(&self);
                    use_type_invariant(&other);
                    Self::lemma_canonical(self);
                    Self::lemma_canonical(other);
                }
                self.seconds == other.seconds && self.nanoseconds == other.nanoseconds
            },
            Err(_) => {
                proof {
                    use_type_invariant(&self);
                    Self::lemma_canonical(self);
                }
                false
            },
        }
    }

    /// The whole seconds of a `core::time::Duration` as an `i64`, when they fit.
    pub(crate) fn std_secs_as_i64(secs: u64) -> (r: Option<i64>)
        ensures
            r is Some <==> secs <= i64::MAX,
            r matches Some(v) ==> v == secs,
    {
        if secs > i64::MAX as u64 {
            None
        } else {
            Some(secs as i64)
        }
    }

    /// The nanoseconds of a `core::time::Duration` as an `i32`.
    pub(crate) fn std_nanos_as_i32(nanos: u32) -> (r: i32)
        requires
            nanos < 1_000_000_000,
        ensures
            r == nanos,
    {
        nanos as i32
    }

    /// The whole seconds and the nanoseconds past them, for comparisons.
    pub(crate) fn parts(self) -> (r: (i64, i32))
        ensures
            r.0 == tdiv(self@, 1_000_000_000),
            r.1 == trem(self@, 1_000_000_000),
            self@ == r.0 * 1_000_000_000 + r.1,
            -1_000_000_000 < r.1 < 1_000_000_000,
            r.0 > 0 ==> r.1 >= 0,
            r.0 < 0 ==> r.1 <= 0,
    {
        proof {
            use_type_invariant(&self);
            Self::lemma_canonical(self);
        }
        (self.seconds, self.nanoseconds)
    }

    /// Add `rhs` in place; the sum must lie within the range of `Duration`.
    pub fn add_assign(&mut self, rhs: Duration)
        requires
            in_range(old(self)@ + rhs@),
        ensures
            final(self)@ == old(self)@ + rhs@,
    {
        let sum = self.checked_add(rhs).unwrap();
        *self = sum;
    }

    /// Subtract `rhs` in place; the difference must lie within the range of `Duration`.
    pub fn sub_assign(&mut self, rhs: Duration)
        requires
            in_range(old(self)@ - rhs@),
        ensures
            final(self)@ == old(self)@ - rhs@,
    {
        let difference = self.checked_sub(rhs).unwrap();
        *self = difference;
    }

    /// Multiply in place by an integer (any of `i8`, `i16`, `i32`, `u8`, `u16` or `u32`, widened
    /// to `i64`); the product must lie within the range of `Duration`.
    pub fn mul_assign(&mut self, rhs: i64)
        requires
            in_range(old(self)@ * rhs),
        ensures
            final(self)@ == old(self)@ * rhs,
    {
        let product = self.whole_nanoseconds() * (rhs as i128);
        *self = Self::nanoseconds_i128(product);
    }

    /// Divide in place by a nonzero integer (any of `i8`, `i16`, `i32`, `u8`, `u16` or `u32`,
    /// widened to `i64`), rounding toward zero; the quotient must lie within the range of
    /// `Duration`.
    pub fn div_assign(&mut self, rhs: i64)
        requires
            rhs != 0,
            in_range(tdiv(old(self)@, rhs as int)),
        ensures
            final(self)@ == tdiv(old(self)@, rhs as int),
    {
        proof {
            use_type_invariant(&*self);
            Self::lemma_canonical(*self);
            lemma_tdiv_general(self@, rhs as int);
        }
        let quotient = self.whole_nanoseconds().checked_div(rhs as i128).unwrap();
        *self = Self::nanoseconds_i128(quotient);
    }

    /// The whole seconds and the nanoseconds past them of the duration's absolute value, as a
    /// `core::time::Duration` holds a duration.
    pub(crate) fn abs_parts(self) -> (r: (u64, u32))
        ensures
            r.0 * 1_000_000_000 + r.1 == abs(self@),
            r.1 < 1_000_000_000,
    {
        proof { use_type_invariant(&self); }
        let secs: u64 = if self.seconds < 0 {
            (-(self.seconds as i128)) as u64
        } else {
            self.seconds as u64
        };
        let nanos: u32 = if self.nanoseconds < 0 {
            (-self.nanoseconds) as u32
        } else {
            self.nanoseconds as u32
        };
        (secs, nanos)
    }

    /// The sum of the durations, zero for none. They are added one after the other, and no
    /// partial sum may leave the range of `Duration`.
    pub fn sum(durations: &[Duration]) -> (r: Duration)
        requires
            forall|k: int|
                1 <= k <= durations@.len() ==> in_range(#[trigger] total(durations@.subrange(0, k))),
        ensures
            r@ == total(durations@),
    {
        let mut acc = Duration::zero();
        let mut i: usize = 0;
        assert(durations@.subrange(0, 0) =~= Seq::<Duration>::empty());
        while i < durations.len()
            invariant
                0 <= i <= durations@.len(),
                acc@ == total(durations@.subrange(0, i as int)),
                forall|k: int|
                    1 <= k <= durations@.len() ==> in_range(#[trigger] total(durations@.subrange(0, k))),
            decreases durations@.len() - i,
        {
            let ghost prefix = durations@.subrange(0, i + 1);
            assert(prefix.drop_last() =~= durations@.subrange(0, i as int));
            assert(prefix.last() == durations@[i as int]);
            assert(in_range(total(prefix)));
            acc = acc + durations[i];
            proof { Duration::lemma_from_nanos(total(prefix)); }
            i = i + 1;
        }
        assert(durations@.subrange(0, durations@.len() as int) =~= durations@);
        acc
    }

    /// The whole seconds and the nanoseconds past them, as a `core::time::Duration` holds a
    /// duration. An error is returned if the duration is negative.
    pub fn to_std_parts(self) -> (r: Result<(u64, u32), ConversionRange>)
        ensures
            r is Ok <==> self@ >= 0,
            r matches Ok(parts) ==> parts.0 * 1_000_000_000 + parts.1 == self@ && parts.1
                < 1_000_000_000,
    {
        proof { use_type_invariant(&self); }
        if self.seconds < 0 || self.nanoseconds < 0 {
            return Err(ConversionRange);
        }
        Ok((self.seconds as u64, self.nanoseconds as u32))
    }
}

// region: laws
/// Subtracting what was added gives back the first duration: `(a + b) - b == a`, wherever
/// the sum is in range.
pub proof fn lemma_add_then_sub(a: Duration, b: Duration)
    requires
        a.wf(),
        b.wf(),
        in_range(a@ + b@),
    ensures
        <Duration as AddSpec>::add_req(a, b),
        <Duration as SubSpec>::sub_req(<Duration as AddSpec>::add_spec(a, b), b),
        <Duration as SubSpec>::sub_spec(<Duration as AddSpec>::add_spec(a, b), b) == a,
{
    Duration::lemma_from_nanos(a@ + b@);
    Duration::lemma_from_duration(a);
}

/// Negating twice gives back the same duration, wherever both negations are defined.
pub proof fn lemma_neg_involutive(d: Duration)
    requires
        d.wf(),
        <Duration as NegSpec>::neg_req(d),
        <Duration as NegSpec>::neg_req(<Duration as NegSpec>::neg_spec(d)),
    ensures
        <Duration as NegSpec>::neg_spec(<Duration as NegSpec>::neg_spec(d)) == d,
{
    Duration::lemma_from_duration(d);
    Duration::lemma_from_nanos(-d@);
}

/// Multiplying by an integer with `*` agrees with `checked_mul` and with `saturating_mul`
/// wherever the product is in range: all three give the duration of the exact product.
pub proof fn lemma_mul_agrees(d: Duration, rhs: i32)
    requires
        d.wf(),
        in_range(d@ * rhs),
    ensures
        <Duration as MulSpec<i32>>::mul_req(d, rhs),
        <Duration as MulSpec<i32>>::mul_spec(d, rhs)@ == d@ * rhs,
        clamp(d@ * rhs) == d@ * rhs,
{
    Duration::lemma_from_nanos(d@ * rhs);
    Duration::lemma_from_duration(d);
}

/// Saturating addition agrees with checked addition wherever the sum is in range, and
/// otherwise gives the bound on the side of the exact sum.
pub proof fn lemma_saturating_add_agrees(a: Duration, b: Duration)
    requires
        a.wf(),
        b.wf(),
    ensures
        in_range(a@ + b@) ==> clamp(a@ + b@) == a@ + b@,
        a@ + b@ > max_nanos() ==> clamp(a@ + b@) == max_nanos(),
        a@ + b@ < min_nanos() ==> clamp(a@ + b@) == min_nanos(),
{
}

/// The whole seconds and the nanoseconds past them make up the duration, and each of the
/// coarser whole units is the whole seconds divided by its length in seconds.
pub proof fn lemma_whole_units(d: Duration)
    requires
        d.wf(),
    ensures
        d@ == tdiv(d@, 1_000_000_000) * 1_000_000_000 + trem(d@, 1_000_000_000),
        tdiv(d@, 60_000_000_000) == tdiv(tdiv(d@, 1_000_000_000), 60),
        tdiv(d@, 3_600_000_000_000) == tdiv(tdiv(d@, 1_000_000_000), 3_600),
        tdiv(d@, 86_400_000_000_000) == tdiv(tdiv(d@, 1_000_000_000), 86_400),
        tdiv(d@, 604_800_000_000_000) == tdiv(tdiv(d@, 1_000_000_000), 604_800),
        tdiv(d@, 1_000_000) == tdiv(d@, 1_000_000_000) * 1_000 + tdiv(
            trem(d@, 1_000_000_000),
            1_000_000,
        ),
{
    lemma_tdiv_nested(d@, 1_000_000_000, 60);
    lemma_tdiv_nested(d@, 1_000_000_000, 3_600);
    lemma_tdiv_nested(d@, 1_000_000_000, 86_400);
    lemma_tdiv_nested(d@, 1_000_000_000, 604_800);
    Duration::lemma_from_duration(d);
    lemma_tdiv_pos(d@, 1_000_000_000);
    let s = tdiv(d@, 1_000_000_000);
    let n = trem(d@, 1_000_000_000);
    lemma_tdiv_pos(n, 1_000_000);
    lemma_tdiv_unique(d@, 1_000_000, s * 1_000 + tdiv(n, 1_000_000), trem(n, 1_000_000));
}

// endregion laws

impl Default for Duration {
    /// The zero-length duration.
    fn default() -> (r: Self)
        ensures
            r@ == 0,
    {
        Duration::zero()
    }
}

impl core::ops::Add for Duration {
    type Output = Self;

    /// Adds two durations; the sum must lie within the range of `Duration`.
    fn add(self, rhs: Self) -> (r: Self) {
        let sum = self.checked_add(rhs).unwrap();
        proof {
            use_type_invariant(&sum);
            Duration::lemma_from_duration(sum);
        }
        sum
    }
}

impl vstd::std_specs::ops::AddSpecImpl for Duration {
    open spec fn obeys_add_spec() -> bool {
        true
    }

    open spec fn add_req(self, rhs: Self) -> bool {
        in_range(self@ + rhs@)
    }

    open spec fn add_spec(self, rhs: Self) -> Self {
        Duration::from_nanos(self@ + rhs@)
    }
}

impl core::ops::Sub for Duration {
    type Output = Self;

    /// Subtracts two durations; the difference must lie within the range of `Duration`.
    fn sub(self, rhs: Self) -> (r: Self) {
        let difference = self.checked_sub(rhs).unwrap();
        proof {
            use_type_invariant(&difference);
            Duration::lemma_from_duration(difference);
        }
        difference
    }
}

impl vstd::std_specs::ops::SubSpecImpl for Duration {
    open spec fn obeys_sub_spec() -> bool {
        true
    }

    open spec fn sub_req(self, rhs: Self) -> bool {
        in_range(self@ - rhs@)
    }

    open spec fn sub_spec(self, rhs: Self) -> Self {
        Duration::from_nanos(self@ - rhs@)
    }
}

impl core::ops::Neg for Duration {
    type Output = Self;

    /// Negates the duration; the whole seconds must not be `i64::MIN`.
    fn neg(self) -> (r: Self) {
        proof { use_type_invariant(&self); Duration::lemma_canonical(self); }
        let negated = Self::new_unchecked(-self.seconds, -self.nanoseconds);
        proof {
            use_type_invariant(&negated);
            Duration::lemma_from_duration(negated);
        }
        negated
    }
}

impl vstd::std_specs::ops::NegSpecImpl for Duration {
    open spec fn obeys_neg_spec() -> bool {
        true
    }

    open spec fn neg_req(self) -> bool {
        self@ > i64::MIN * 1_000_000_000
    }

    open spec fn neg_spec(self) -> Self {
        Duration::from_nanos(-self@)
    }
}

impl Duration {
    /// Multiplies the span in nanoseconds by an integer factor; the product must lie within the
    /// range of `Duration`.
    fn mul_nanoseconds(self, rhs: i128) -> (r: Self)
        requires
            -4_294_967_296 <= rhs <= 4_294_967_296,
            in_range(self@ * rhs),
        ensures
            r == Duration::from_nanos(self@ * rhs),
    {
        let total = self.whole_nanoseconds();
        proof {
            use_type_invariant(&self);
            Duration::lemma_canonical(self);
            assert(-170_141_183_460_469_231_731_687_303_715_884_105_728 <= self@ * rhs
                <= 170_141_183_460_469_231_731_687_303_715_884_105_727) by (nonlinear_arith)
                requires
                    in_range(self@ * rhs),
            ;
        }
        let product = Self::nanoseconds_i128(total.checked_mul(rhs).unwrap());
        proof {
            use_type_invariant(&product);
            Duration::lemma_from_duration(product);
        }
        product
    }

    /// Divides the span in nanoseconds by a nonzero integer, rounding toward zero; the quotient
    /// must lie within the range of `Duration`.
    fn div_nanoseconds(self, rhs: i128) -> (r: Self)
        requires
            rhs != 0,
            -4_294_967_296 <= rhs <= 4_294_967_296,
            in_range(tdiv(self@, rhs as int)),
        ensures
            r == Duration::from_nanos(tdiv(self@, rhs as int)),
    {
        let total = self.whole_nanoseconds();
        proof {
            use_type_invariant(&self);
            Duration::lemma_canonical(self);
        }
        let quotient = Self::nanoseconds_i128(total.checked_div(rhs).unwrap());
        proof {
            use_type_invariant(&quotient);
            Duration::lemma_from_duration(quotient);
        }
        quotient
    }
}

impl core::ops::Mul<i8> for Duration {
    type Output = Self;

    /// Multiplies the duration by an integer; the product must lie within the range of
    /// `Duration`.
    fn mul(self, rhs: i8) -> (r: Self) {
        self.mul_nanoseconds(rhs as i128)
    }
}

impl vstd::std_specs::ops::MulSpecImpl<i8> for Duration {
    open spec fn obeys_mul_spec() -> bool {
        true
    }

    open spec fn mul_req(self, rhs: i8) -> bool {
        in_range(self@ * rhs)
    }

    open spec fn mul_spec(self, rhs: i8) -> Self {
        Duration::from_nanos(self@ * rhs)
    }
}

impl core::ops::Mul<Duration> for i8 {
    type Output = Duration;

    /// Multiplies the duration by an integer; the product must lie within the range of
    /// `Duration`.
    fn mul(self, rhs: Duration) -> (r: Duration) {
        rhs.mul_nanoseconds(self as i128)
    }
}

impl vstd::std_specs::ops::MulSpecImpl<Duration> for i8 {
    open spec fn obeys_mul_spec() -> bool {
        true
    }

    open spec fn mul_req(self, rhs: Duration) -> bool {
        in_range(rhs@ * self)
    }

    open spec fn mul_spec(self, rhs: Duration) -> Duration {
        Duration::from_nanos(rhs@ * self)
    }
}

impl core::ops::Div<i8> for Duration {
    type Output = Self;

    /// Divides the duration by a nonzero integer, rounding toward zero; the quotient must lie
    /// within the range of `Duration`.
    fn div(self, rhs: i8) -> (r: Self) {
        self.div_nanoseconds(rhs as i128)
    }
}

impl vstd::std_specs::ops::DivSpecImpl<i8> for Duration {
    open spec fn obeys_div_spec() -> bool {
        true
    }

    open spec fn div_req(self, rhs: i8) -> bool {
        rhs != 0 && in_range(tdiv(self@, rhs as int))
    }

    open spec fn div_spec(self, rhs: i8) -> Self {
        Duration::from_nanos(tdiv(self@, rhs as int))
    }
}

impl core::ops::Mul<i16> for Duration {
    type Output = Self;

    /// Multiplies the duration by an integer; the product must lie within the range of
    /// `Duration`.
    fn mul(self, rhs: i16) -> (r: Self) {
        self.mul_nanoseconds(rhs as i128)
    }
}

impl vstd::std_specs::ops::MulSpecImpl<i16> for Duration {
    open spec fn obeys_mul_spec() -> bool {
        true
    }

    open spec fn mul_req(self, rhs: i16) -> bool {
        in_range(self@ * rhs)
    }

    open spec fn mul_spec(self, rhs: i16) -> Self {
        Duration::from_nanos(self@ * rhs)
    }
}

impl core::ops::Mul<Duration> for i16 {
    type Output = Duration;

    /// Multiplies the duration by an integer; the product must lie within the range of
    /// `Duration`.
    fn mul(self, rhs: Duration) -> (r: Duration) {
        rhs.mul_nanoseconds(self as i128)
    }
}

impl vstd::std_specs::ops::MulSpecImpl<Duration> for i16 {
    open spec fn obeys_mul_spec() -> bool {
        true
    }

    open spec fn mul_req(self, rhs: Duration) -> bool {
        in_range(rhs@ * self)
    }

    open spec fn mul_spec(self, rhs: Duration) -> Duration {
        Duration::from_nanos(rhs@ * self)
    }
}

impl core::ops::Div<i16> for Duration {
    type Output = Self;

    /// Divides the duration by a nonzero integer, rounding toward zero; the quotient must lie
    /// within the range of `Duration`.
    fn div(self, rhs: i16) -> (r: Self) {
        self.div_nanoseconds(rhs as i128)
    }
}

impl vstd::std_specs::ops::DivSpecImpl<i16> for Duration {
    open spec fn obeys_div_spec() -> bool {
        true
    }

    open spec fn div_req(self, rhs: i16) -> bool {
        rhs != 0 && in_range(tdiv(self@, rhs as int))
    }

    open spec fn div_spec(self, rhs: i16) -> Self {
        Duration::from_nanos(tdiv(self@, rhs as int))
    }
}

impl core::ops::Mul<i32> for Duration {
    type Output = Self;

    /// Multiplies the duration by an integer; the product must lie within the range of
    /// `Duration`.
    fn mul(self, rhs: i32) -> (r: Self) {
        self.mul_nanoseconds(rhs as i128)
    }
}

impl vstd::std_specs::ops::MulSpecImpl<i32> for Duration {
    open spec fn obeys_mul_spec() -> bool {
        true
    }

    open spec fn mul_req(self, rhs: i32) -> bool {
        in_range(self@ * rhs)
    }

    open spec fn mul_spec(self, rhs: i32) -> Self {
        Duration::from_nanos(self@ * rhs)
    }
}

impl core::ops::Mul<Duration> for i32 {
    type Output = Duration;

    /// Multiplies the duration by an integer; the product must lie within the range of
    /// `Duration`.
    fn mul(self, rhs: Duration) -> (r: Duration) {
        rhs.mul_nanoseconds(self as i128)
    }
}

impl vstd::std_specs::ops::MulSpecImpl<Duration> for i32 {
    open spec fn obeys_mul_spec() -> bool {
        true
    }

    open spec fn mul_req(self, rhs: Duration) -> bool {
        in_range(rhs@ * self)
    }

    open spec fn mul_spec(self, rhs: Duration) -> Duration {
        Duration::from_nanos(rhs@ * self)
    }
}

impl core::ops::Div<i32> for Duration {
    type Output = Self;

    /// Divides the duration by a nonzero integer, rounding toward zero; the quotient must lie
    /// within the range of `Duration`.
    fn div(self, rhs: i32) -> (r: Self) {
        self.div_nanoseconds(rhs as i128)
    }
}

impl vstd::std_specs::ops::DivSpecImpl<i32> for Duration {
    open spec fn obeys_div_spec() -> bool {
        true
    }

    open spec fn div_req(self, rhs: i32) -> bool {
        rhs != 0 && in_range(tdiv(self@, rhs as int))
    }

    open spec fn div_spec(self, rhs: i32) -> Self {
        Duration::from_nanos(tdiv(self@, rhs as int))
    }
}

impl core::ops::Mul<u8> for Duration {
    type Output = Self;

    /// Multiplies the duration by an integer; the product must lie within the range of
    /// `Duration`.
    fn mul(self, rhs: u8) -> (r: Self) {
        self.mul_nanoseconds(rhs as i128)
    }
}

impl vstd::std_specs::ops::MulSpecImpl<u8> for Duration {
    open spec fn obeys_mul_spec() -> bool {
        true
    }

    open spec fn mul_req(self, rhs: u8) -> bool {
        in_range(self@ * rhs)
    }

    open spec fn mul_spec(self, rhs: u8) -> Self {
        Duration::from_nanos(self@ * rhs)
    }
}

impl core::ops::Mul<Duration> for u8 {
    type Output = Duration;

    /// Multiplies the duration by an integer; the product must lie within the range of
    /// `Duration`.
    fn mul(self, rhs: Duration) -> (r: Duration) {
        rhs.mul_nanoseconds(self as i128)
    }
}

impl vstd::std_specs::ops::MulSpecImpl<Duration> for u8 {
    open spec fn obeys_mul_spec() -> bool {
        true
    }

    open spec fn mul_req(self, rhs: Duration) -> bool {
        in_range(rhs@ * self)
    }

    open spec fn mul_spec(self, rhs: Duration) -> Duration {
        Duration::from_nanos(rhs@ * self)
    }
}

impl core::ops::Div<u8> for Duration {
    type Output = Self;

    /// Divides the duration by a nonzero integer, rounding toward zero; the quotient must lie
    /// within the range of `Duration`.
    fn div(self, rhs: u8) -> (r: Self) {
        self.div_nanoseconds(rhs as i128)
    }
}

impl vstd::std_specs::ops::DivSpecImpl<u8> for Duration {
    open spec fn obeys_div_spec() -> bool {
        true
    }

    open spec fn div_req(self, rhs: u8) -> bool {
        rhs != 0 && in_range(tdiv(self@, rhs as int))
    }

    open spec fn div_spec(self, rhs: u8) -> Self {
        Duration::from_nanos(tdiv(self@, rhs as int))
    }
}

impl core::ops::Mul<u16> for Duration {
    type Output = Self;

    /// Multiplies the duration by an integer; the product must lie within the range of
    /// `Duration`.
    fn mul(self, rhs: u16) -> (r: Self) {
        self.mul_nanoseconds(rhs as i128)
    }
}

impl vstd::std_specs::ops::MulSpecImpl<u16> for Duration {
    open spec fn obeys_mul_spec() -> bool {
        true
    }

    open spec fn mul_req(self, rhs: u16) -> bool {
        in_range(self@ * rhs)
    }

    open spec fn mul_spec(self, rhs: u16) -> Self {
        Duration::from_nanos(self@ * rhs)
    }
}

impl core::ops::Mul<Duration> for u16 {
    type Output = Duration;

    /// Multiplies the duration by an integer; the product must lie within the range of
    /// `Duration`.
    fn mul(self, rhs: Duration) -> (r: Duration) {
        rhs.mul_nanoseconds(self as i128)
    }
}

impl vstd::std_specs::ops::MulSpecImpl<Duration> for u16 {
    open spec fn obeys_mul_spec() -> bool {
        true
    }

    open spec fn mul_req(self, rhs: Duration) -> bool {
        in_range(rhs@ * self)
    }

    open spec fn mul_spec(self, rhs: Duration) -> Duration {
        Duration::from_nanos(rhs@ * self)
    }
}

impl core::ops::Div<u16> for Duration {
    type Output = Self;

    /// Divides the duration by a nonzero integer, rounding toward zero; the quotient must lie
    /// within the range of `Duration`.
    fn div(self, rhs: u16) -> (r: Self) {
        self.div_nanoseconds(rhs as i128)
    }
}

impl vstd::std_specs::ops::DivSpecImpl<u16> for Duration {
    open spec fn obeys_div_spec() -> bool {
        true
    }

    open spec fn div_req(self, rhs: u16) -> bool {
        rhs != 0 && in_range(tdiv(self@, rhs as int))
    }

    open spec fn div_spec(self, rhs: u16) -> Self {
        Duration::from_nanos(tdiv(self@, rhs as int))
    }
}

impl core::ops::Mul<u32> for Duration {
    type Output = Self;

    /// Multiplies the duration by an integer; the product must lie within the range of
    /// `Duration`.
    fn mul(self, rhs: u32) -> (r: Self) {
        self.mul_nanoseconds(rhs as i128)
    }
}

impl vstd::std_specs::ops::MulSpecImpl<u32> for Duration {
    open spec fn obeys_mul_spec() -> bool {
        true
    }

    open spec fn mul_req(self, rhs: u32) -> bool {
        in_range(self@ * rhs)
    }

    open spec fn mul_spec(self, rhs: u32) -> Self {
        Duration::from_nanos(self@ * rhs)
    }
}

impl core::ops::Mul<Duration> for u32 {
    type Output = Duration;

    /// Multiplies the duration by an integer; the product must lie within the range of
    /// `Duration`.
    fn mul(self, rhs: Duration) -> (r: Duration) {
        rhs.mul_nanoseconds(self as i128)
    }
}

impl vstd::std_specs::ops::MulSpecImpl<Duration> for u32 {
    open spec fn obeys_mul_spec() -> bool {
        true
    }

    open spec fn mul_req(self, rhs: Duration) -> bool {
        in_range(rhs@ * self)
    }

    open spec fn mul_spec(self, rhs: Duration) -> Duration {
        Duration::from_nanos(rhs@ * self)
    }
}

impl core::ops::Div<u32> for Duration {
    type Output = Self;

    /// Divides the duration by a nonzero integer, rounding toward zero; the quotient must lie
    /// within the range of `Duration`.
    fn div(self, rhs: u32) -> (r: Self) {
        self.div_nanoseconds(rhs as i128)
    }
}

impl vstd::std_specs::ops::DivSpecImpl<u32> for Duration {
    open spec fn obeys_div_spec() -> bool {
        true
    }

    open spec fn div_req(self, rhs: u32) -> bool {
        rhs != 0 && in_range(tdiv(self@, rhs as int))
    }

    open spec fn div_spec(self, rhs: u32) -> Self {
        Duration::from_nanos(tdiv(self@, rhs as int))
    }
}

} // verus!
