//! Various modifiers for components.

use vstd::prelude::*;

verus! {

/// Type of padding to ensure a minimum width.
#[derive(Debug, Clone, Copy, PartialEq, Eq, Structural)]
pub enum Padding {
    /// A space character (` `) should be used as padding.
    Space,
    /// A zero character (`0`) should be used as padding.
    Zero,
    /// There is no padding. This can result in a width below the otherwise minimum number of characters.
    Unpadded,
}

impl Default for Padding {
    /// The representation used when no modifier says otherwise: `Zero`.
    fn default() -> (r: Self)
        ensures
            r == Padding::Zero,
    {
        Padding::Zero
    }
}

/// The representation of a month.
#[derive(Debug, Clone, Copy, PartialEq, Eq, Structural)]
pub enum MonthRepr {
    /// The number of the month (January is 1, December is 12).
    Numerical,
    /// The long form of the month name (e.g. "January").
    Long,
    /// The short form of the month name (e.g. "Jan").
    Short,
}

impl Default for MonthRepr {
    /// The representation used when no modifier says otherwise: `Numerical`.
    fn default() -> (r: Self)
        ensures
            r == MonthRepr::Numerical,
    {
        MonthRepr::Numerical
    }
}

/// The representation used for the day of the week.
#[derive(Debug, Clone, Copy, PartialEq, Eq, Structural)]
pub enum WeekdayRepr {
    /// The short form of the weekday (e.g. "Mon").
    Short,
    /// The long form of the weekday (e.g. "Monday").
    Long,
    /// A numerical representation using Sunday as the first day of the week.
    Sunday,
    /// A numerical representation using Monday as the first day of the week.
    Monday,
}

impl Default for WeekdayRepr {
    /// The representation used when no modifier says otherwise: `Long`.
    fn default() -> (r: Self)
        ensures
            r == WeekdayRepr::Long,
    {
        WeekdayRepr::Long
    }
}

/// The representation used for the week number.
#[derive(Debug, Clone, Copy, PartialEq, Eq, Structural)]
pub enum WeekNumberRepr {
    /// Week 1 is the week that contains January 4.
    Iso,
    /// Week 1 begins on the first Sunday of the calendar year.
    Sunday,
    /// Week 1 begins on the first Monday of the calendar year.
    Monday,
}

impl Default for WeekNumberRepr {
    /// The representation used when no modifier says otherwise: `Iso`.
    fn default() -> (r: Self)
        ensures
            r == WeekNumberRepr::Iso,
    {
        WeekNumberRepr::Iso
    }
}

/// The representation used for a year value.
#[derive(Debug, Clone, Copy, PartialEq, Eq, Structural)]
pub enum YearRepr {
    /// The full value of the year.
    Full,
    /// Only the last two digits of the year.
    LastTwo,
}

impl Default for YearRepr {
    /// The representation used when no modifier says otherwise: `Full`.
    fn default() -> (r: Self)
        ensures
            r == YearRepr::Full,
    {
        YearRepr::Full
    }
}

/// The number of digits present in a subsecond representation.
#[derive(Debug, Clone, Copy, PartialEq, Eq, Structural)]
pub enum SubsecondDigits {
    /// Exactly one digit.
    One,
    /// Exactly two digits.
    Two,
    /// Exactly three digits.
    Three,
    /// Exactly four digits.
    Four,
    /// Exactly five digits.
    Five,
    /// Exactly six digits.
    Six,
    /// Exactly seven digits.
    Seven,
    /// Exactly eight digits.
    Eight,
    /// Exactly nine digits.
    Nine,
    /// Any number of digits (up to nine) that is at least one. When formatting, the minimum digits necessary will be used.
    OneOrMore,
}

impl Default for SubsecondDigits {
    /// The representation used when no modifier says otherwise: `OneOrMore`.
    fn default() -> (r: Self)
        ensures
            r == SubsecondDigits::OneOrMore,
    {
        SubsecondDigits::OneOrMore
    }
}

/// Day of the month.
#[derive(Debug, Clone, Copy, PartialEq, Eq, Structural)]
pub struct Day {
    /// The padding to obtain the minimum width.
    pub padding: Padding,
}

/// Month of the year.
#[derive(Debug, Clone, Copy, PartialEq, Eq, Structural)]
pub struct Month {
    /// The padding to obtain the minimum width.
    pub padding: Padding,
    /// What form of representation should be used?
    pub repr: MonthRepr,
    /// Is the value case sensitive when parsing?
    pub case_sensitive: bool,
}

/// Ordinal day of the year.
#[derive(Debug, Clone, Copy, PartialEq, Eq, Structural)]
pub struct Ordinal {
    /// The padding to obtain the minimum width.
    pub padding: Padding,
}

/// Day of the week.
#[derive(Debug, Clone, Copy, PartialEq, Eq, Structural)]
pub struct Weekday {
    /// What form of representation should be used?
    pub repr: WeekdayRepr,
    /// When using a numerical representation, should it be zero or one-indexed?
    pub one_indexed: bool,
    /// Is the value case sensitive when parsing?
    pub case_sensitive: bool,
}

/// Week within the year.
#[derive(Debug, Clone, Copy, PartialEq, Eq, Structural)]
pub struct WeekNumber {
    /// The padding to obtain the minimum width.
    pub padding: Padding,
    /// What kind of representation should be used?
    pub repr: WeekNumberRepr,
}

/// Year of the date.
#[derive(Debug, Clone, Copy, PartialEq, Eq, Structural)]
pub struct Year {
    /// The padding to obtain the minimum width.
    pub padding: Padding,
    /// What kind of representation should be used?
    pub repr: YearRepr,
    /// Whether the value is based on the ISO week number or the Gregorian calendar.
    pub iso_week_based: bool,
    /// Whether the `+` sign is present when a positive year contains fewer than five digits.
    pub sign_is_mandatory: bool,
}

/// Hour of the day.
#[derive(Debug, Clone, Copy, PartialEq, Eq, Structural)]
pub struct Hour {
    /// The padding to obtain the minimum width.
    pub padding: Padding,
    /// Is the hour displayed using a 12 or 24-hour clock?
    pub is_12_hour_clock: bool,
}

/// Minute within the hour.
#[derive(Debug, Clone, Copy, PartialEq, Eq, Structural)]
pub struct Minute {
    /// The padding to obtain the minimum width.
    pub padding: Padding,
}

/// AM/PM part of the time.
#[derive(Debug, Clone, Copy, PartialEq, Eq, Structural)]
pub struct Period {
    /// Is the period uppercase or lowercase?
    pub is_uppercase: bool,
    /// Is the value case sensitive when parsing?
    pub case_sensitive: bool,
}

/// Second within the minute.
#[derive(Debug, Clone, Copy, PartialEq, Eq, Structural)]
pub struct Second {
    /// The padding to obtain the minimum width.
    pub padding: Padding,
}

/// Fractional part of the second.
#[derive(Debug, Clone, Copy, PartialEq, Eq, Structural)]
pub struct Subsecond {
    /// How many digits are present in the component?
    pub digits: SubsecondDigits,
}

/// Hour of the UTC offset.
#[derive(Debug, Clone, Copy, PartialEq, Eq, Structural)]
pub struct OffsetHour {
    /// Whether the `+` sign is present on positive values.
    pub sign_is_mandatory: bool,
    /// The padding to obtain the minimum width.
    pub padding: Padding,
}

/// Minute within the hour of the UTC offset.
#[derive(Debug, Clone, Copy, PartialEq, Eq, Structural)]
pub struct OffsetMinute {
    /// The padding to obtain the minimum width.
    pub padding: Padding,
}

/// Second within the minute of the UTC offset.
#[derive(Debug, Clone, Copy, PartialEq, Eq, Structural)]
pub struct OffsetSecond {
    /// The padding to obtain the minimum width.
    pub padding: Padding,
}

} // verus!
