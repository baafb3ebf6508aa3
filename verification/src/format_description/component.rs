//! Part of a format description.

use vstd::prelude::*;

use crate::error::InvalidFormatDescription;
use crate::format_description::modifier;
use crate::text::{bytes_eq, utf8_lossy, utf8_lossy_string};

verus! {

/// A component of a larger format description.
#[non_exhaustive]
#[derive(Debug, Clone, Copy, PartialEq, Eq, Structural)]
pub enum Component {
    /// Day of the month.
    Day(modifier::Day),
    /// Month of the year.
    Month(modifier::Month),
    /// Ordinal day of the year.
    Ordinal(modifier::Ordinal),
    /// Day of the week.
    Weekday(modifier::Weekday),
    /// Week within the year.
    WeekNumber(modifier::WeekNumber),
    /// Year of the date.
    Year(modifier::Year),
    /// Hour of the day.
    Hour(modifier::Hour),
    /// Minute within the hour.
    Minute(modifier::Minute),
    /// AM/PM part of the time.
    Period(modifier::Period),
    /// Second within the minute.
    Second(modifier::Second),
    /// Subsecond within the second.
    Subsecond(modifier::Subsecond),
    /// Hour of the UTC offset.
    OffsetHour(modifier::OffsetHour),
    /// Minute within the hour of the UTC offset.
    OffsetMinute(modifier::OffsetMinute),
    /// Second within the minute of the UTC offset.
    OffsetSecond(modifier::OffsetSecond),
}

/// A component with no modifiers present.
#[derive(Debug, Clone, Copy, PartialEq, Eq, Structural)]
pub enum NakedComponent {
    /// Day of the month.
    Day,
    /// Month of the year.
    Month,
    /// Ordinal day of the year.
    Ordinal,
    /// Day of the week.
    Weekday,
    /// Week within the year.
    WeekNumber,
    /// Year of the date.
    Year,
    /// Hour of the day.
    Hour,
    /// Minute within the hour.
    Minute,
    /// AM/PM part of the time.
    Period,
    /// Second within the minute.
    Second,
    /// Subsecond within the second.
    Subsecond,
    /// Hour of the UTC offset.
    OffsetHour,
    /// Minute within the hour of the UTC offset.
    OffsetMinute,
    /// Second within the minute of the UTC offset.
    OffsetSecond,
}

/// The modifiers given for a component, each absent unless the description names it.
#[derive(Debug, Clone, Copy, PartialEq, Eq, Default)]
pub struct Modifiers {
    /// Padding of a numerical component.
    pub padding: Option<modifier::Padding>,
    /// Whether an hour uses the 12-hour clock.
    pub hour_is_12_hour_clock: Option<bool>,
    /// Whether the period is uppercase.
    pub period_is_uppercase: Option<bool>,
    /// The representation of a month.
    pub month_repr: Option<modifier::MonthRepr>,
    /// The number of digits of a subsecond.
    pub subsecond_digits: Option<modifier::SubsecondDigits>,
    /// The representation of a weekday.
    pub weekday_repr: Option<modifier::WeekdayRepr>,
    /// Whether a numerical weekday is one-indexed.
    pub weekday_is_one_indexed: Option<bool>,
    /// The representation of a week number.
    pub week_number_repr: Option<modifier::WeekNumberRepr>,
    /// The representation of a year.
    pub year_repr: Option<modifier::YearRepr>,
    /// Whether a year is based on the ISO week.
    pub year_is_iso_week_based: Option<bool>,
    /// Whether the sign is mandatory.
    pub sign_is_mandatory: Option<bool>,
    /// Whether parsing is case sensitive.
    pub case_sensitive: Option<bool>,
}

/// The name of a component in a format description, as ASCII bytes (`"week_number"` for
/// `WeekNumber`, and so on).
pub open spec fn component_name(component: NakedComponent) -> Seq<u8> {
    match component {
        NakedComponent::Day => seq![100u8, 97, 121],  // "day"
        NakedComponent::Month => seq![109u8, 111, 110, 116, 104],  // "month"
        NakedComponent::Ordinal => seq![111u8, 114, 100, 105, 110, 97, 108],  // "ordinal"
        NakedComponent::Weekday => seq![119u8, 101, 101, 107, 100, 97, 121],  // "weekday"
        NakedComponent::WeekNumber => seq![119u8, 101, 101, 107, 95, 110, 117, 109, 98, 101, 114],  // "week_number"
        NakedComponent::Year => seq![121u8, 101, 97, 114],  // "year"
        NakedComponent::Hour => seq![104u8, 111, 117, 114],  // "hour"
        NakedComponent::Minute => seq![109u8, 105, 110, 117, 116, 101],  // "minute"
        NakedComponent::Period => seq![112u8, 101, 114, 105, 111, 100],  // "period"
        NakedComponent::Second => seq![115u8, 101, 99, 111, 110, 100],  // "second"
        NakedComponent::Subsecond => seq![115u8, 117, 98, 115, 101, 99, 111, 110, 100],  // "subsecond"
        NakedComponent::OffsetHour => seq![111u8, 102, 102, 115, 101, 116, 95, 104, 111, 117, 114],  // "offset_hour"
        NakedComponent::OffsetMinute => seq![111u8, 102, 102, 115, 101, 116, 95, 109, 105, 110, 117, 116, 101],  // "offset_minute"
        NakedComponent::OffsetSecond => seq![111u8, 102, 102, 115, 101, 116, 95, 115, 101, 99, 111, 110, 100],  // "offset_second"
    }
}

/// The component that a name denotes, if any.
pub open spec fn component_named(name: Seq<u8>) -> Option<NakedComponent> {
    if name == component_name(NakedComponent::Day) {
        Some(NakedComponent::Day)
    } else if name == component_name(NakedComponent::Month) {
        Some(NakedComponent::Month)
    } else if name == component_name(NakedComponent::Ordinal) {
        Some(NakedComponent::Ordinal)
    } else if name == component_name(NakedComponent::Weekday) {
        Some(NakedComponent::Weekday)
    } else if name == component_name(NakedComponent::WeekNumber) {
        Some(NakedComponent::WeekNumber)
    } else if name == component_name(NakedComponent::Year) {
        Some(NakedComponent::Year)
    } else if name == component_name(NakedComponent::Hour) {
        Some(NakedComponent::Hour)
    } else if name == component_name(NakedComponent::Minute) {
        Some(NakedComponent::Minute)
    } else if name == component_name(NakedComponent::Period) {
        Some(NakedComponent::Period)
    } else if name == component_name(NakedComponent::Second) {
        Some(NakedComponent::Second)
    } else if name == component_name(NakedComponent::Subsecond) {
        Some(NakedComponent::Subsecond)
    } else if name == component_name(NakedComponent::OffsetHour) {
        Some(NakedComponent::OffsetHour)
    } else if name == component_name(NakedComponent::OffsetMinute) {
        Some(NakedComponent::OffsetMinute)
    } else if name == component_name(NakedComponent::OffsetSecond) {
        Some(NakedComponent::OffsetSecond)
    } else {
        None
    }
}

/// The value of an optional modifier, or its default.
pub open spec fn or_default<T>(value: Option<T>, default: T) -> T {
    match value {
        Some(v) => v,
        None => default,
    }
}

/// The component that a naked component becomes with the given modifiers: each modifier that
/// is absent takes its default (zero padding, numerical months, long weekdays, ISO week numbers,
/// full years, as many subsecond digits as needed; case sensitive, one-indexed weekdays and
/// uppercase periods; and `false` for the other flags).
pub open spec fn with_modifiers(component: NakedComponent, m: Modifiers) -> Component {
    let padding = or_default(m.padding, modifier::Padding::Zero);
    match component {
        NakedComponent::Day => Component::Day(modifier::Day { padding }),
        NakedComponent::Month => Component::Month(
            modifier::Month {
                padding,
                repr: or_default(m.month_repr, modifier::MonthRepr::Numerical),
                case_sensitive: or_default(m.case_sensitive, true),
            },
        ),
        NakedComponent::Ordinal => Component::Ordinal(modifier::Ordinal { padding }),
        NakedComponent::Weekday => Component::Weekday(
            modifier::Weekday {
                repr: or_default(m.weekday_repr, modifier::WeekdayRepr::Long),
                one_indexed: or_default(m.weekday_is_one_indexed, true),
                case_sensitive: or_default(m.case_sensitive, true),
            },
        ),
        NakedComponent::WeekNumber => Component::WeekNumber(
            modifier::WeekNumber {
                padding,
                repr: or_default(m.week_number_repr, modifier::WeekNumberRepr::Iso),
            },
        ),
        NakedComponent::Year => Component::Year(
            modifier::Year {
                padding,
                repr: or_default(m.year_repr, modifier::YearRepr::Full),
                iso_week_based: or_default(m.year_is_iso_week_based, false),
                sign_is_mandatory: or_default(m.sign_is_mandatory, false),
            },
        ),
        NakedComponent::Hour => Component::Hour(
            modifier::Hour {
                padding,
                is_12_hour_clock: or_default(m.hour_is_12_hour_clock, false),
            },
        ),
        NakedComponent::Minute => Component::Minute(modifier::Minute { padding }),
        NakedComponent::Period => Component::Period(
            modifier::Period {
                is_uppercase: or_default(m.period_is_uppercase, true),
                case_sensitive: or_default(m.case_sensitive, true),
            },
        ),
        NakedComponent::Second => Component::Second(modifier::Second { padding }),
        NakedComponent::Subsecond => Component::Subsecond(
            modifier::Subsecond {
                digits: or_default(m.subsecond_digits, modifier::SubsecondDigits::OneOrMore),
            },
        ),
        NakedComponent::OffsetHour => Component::OffsetHour(
            modifier::OffsetHour {
                sign_is_mandatory: or_default(m.sign_is_mandatory, false),
                padding,
            },
        ),
        NakedComponent::OffsetMinute => Component::OffsetMinute(modifier::OffsetMinute { padding }),
        NakedComponent::OffsetSecond => Component::OffsetSecond(modifier::OffsetSecond { padding }),
    }
}

/// Attaching modifiers gives the component of the same kind, and every modifier that is given
/// is the one the component carries.
pub proof fn lemma_given_modifiers_kept(m: Modifiers)
    ensures
        with_modifiers(NakedComponent::Day, m) matches Component::Day(c) && (m.padding matches Some(
            p,
        ) ==> c.padding == p),
        with_modifiers(NakedComponent::Month, m) matches Component::Month(c) && (m.padding matches Some(
            p,
        ) ==> c.padding == p) && (m.month_repr matches Some(r) ==> c.repr == r) && (
        m.case_sensitive matches Some(b) ==> c.case_sensitive == b),
        with_modifiers(NakedComponent::Ordinal, m) matches Component::Ordinal(c) && (
        m.padding matches Some(p) ==> c.padding == p),
        with_modifiers(NakedComponent::Weekday, m) matches Component::Weekday(c) && (
        m.weekday_repr matches Some(r) ==> c.repr == r) && (m.weekday_is_one_indexed matches Some(
            b,
        ) ==> c.one_indexed == b) && (m.case_sensitive matches Some(b) ==> c.case_sensitive == b),
        with_modifiers(NakedComponent::WeekNumber, m) matches Component::WeekNumber(c) && (
        m.padding matches Some(p) ==> c.padding == p) && (m.week_number_repr matches Some(r)
            ==> c.repr == r),
        with_modifiers(NakedComponent::Year, m) matches Component::Year(c) && (m.padding matches Some(
            p,
        ) ==> c.padding == p) && (m.year_repr matches Some(r) ==> c.repr == r) && (
        m.year_is_iso_week_based matches Some(b) ==> c.iso_week_based == b) && (
        m.sign_is_mandatory matches Some(b) ==> c.sign_is_mandatory == b),
        with_modifiers(NakedComponent::Hour, m) matches Component::Hour(c) && (m.padding matches Some(
            p,
        ) ==> c.padding == p) && (m.hour_is_12_hour_clock matches Some(b) ==> c.is_12_hour_clock
            == b),
        with_modifiers(NakedComponent::Minute, m) matches Component::Minute(c) && (
        m.padding matches Some(p) ==> c.padding == p),
        with_modifiers(NakedComponent::Period, m) matches Component::Period(c) && (
        m.period_is_uppercase matches Some(b) ==> c.is_uppercase == b) && (
        m.case_sensitive matches Some(b) ==> c.case_sensitive == b),
        with_modifiers(NakedComponent::Second, m) matches Component::Second(c) && (
        m.padding matches Some(p) ==> c.padding == p),
        with_modifiers(NakedComponent::Subsecond, m) matches Component::Subsecond(c) && (
        m.subsecond_digits matches Some(d) ==> c.digits == d),
        with_modifiers(NakedComponent::OffsetHour, m) matches Component::OffsetHour(c) && (
        m.padding matches Some(p) ==> c.padding == p) && (m.sign_is_mandatory matches Some(b)
            ==> c.sign_is_mandatory == b),
        with_modifiers(NakedComponent::OffsetMinute, m) matches Component::OffsetMinute(c) && (
        m.padding matches Some(p) ==> c.padding == p),
        with_modifiers(NakedComponent::OffsetSecond, m) matches Component::OffsetSecond(c) && (
        m.padding matches Some(p) ==> c.padding == p),
{
}

/// With no modifier given, each component takes its defaults: zero padding, numerical months,
/// long weekdays counted from one, ISO week numbers, full calendar years, the 24-hour clock,
/// uppercase periods, as many subsecond digits as needed, case-sensitive parsing, and no
/// mandatory sign.
pub proof fn lemma_default_modifiers(m: Modifiers)
    requires
        m.padding is None,
        m.hour_is_12_hour_clock is None,
        m.period_is_uppercase is None,
        m.month_repr is None,
        m.subsecond_digits is None,
        m.weekday_repr is None,
        m.weekday_is_one_indexed is None,
        m.week_number_repr is None,
        m.year_repr is None,
        m.year_is_iso_week_based is None,
        m.sign_is_mandatory is None,
        m.case_sensitive is None,
    ensures
        with_modifiers(NakedComponent::Month, m) == Component::Month(
            modifier::Month {
                padding: modifier::Padding::Zero,
                repr: modifier::MonthRepr::Numerical,
                case_sensitive: true,
            },
        ),
        with_modifiers(NakedComponent::Weekday, m) == Component::Weekday(
            modifier::Weekday {
                repr: modifier::WeekdayRepr::Long,
                one_indexed: true,
                case_sensitive: true,
            },
        ),
        with_modifiers(NakedComponent::WeekNumber, m) == Component::WeekNumber(
            modifier::WeekNumber { padding: modifier::Padding::Zero, repr: modifier::WeekNumberRepr::Iso },
        ),
        with_modifiers(NakedComponent::Year, m) == Component::Year(
            modifier::Year {
                padding: modifier::Padding::Zero,
                repr: modifier::YearRepr::Full,
                iso_week_based: false,
                sign_is_mandatory: false,
            },
        ),
        with_modifiers(NakedComponent::Hour, m) == Component::Hour(
            modifier::Hour { padding: modifier::Padding::Zero, is_12_hour_clock: false },
        ),
        with_modifiers(NakedComponent::Period, m) == Component::Period(
            modifier::Period { is_uppercase: true, case_sensitive: true },
        ),
        with_modifiers(NakedComponent::Subsecond, m) == Component::Subsecond(
            modifier::Subsecond { digits: modifier::SubsecondDigits::OneOrMore },
        ),
        with_modifiers(NakedComponent::OffsetHour, m) == Component::OffsetHour(
            modifier::OffsetHour { sign_is_mandatory: false, padding: modifier::Padding::Zero },
        ),
{
}

/// Each component is parsed back from its own name.
pub proof fn lemma_component_name_roundtrip(component: NakedComponent)
    ensures
        component_named(component_name(component)) == Some(component),
{
    let names = seq![
        component_name(NakedComponent::Day),
        component_name(NakedComponent::Month),
        component_name(NakedComponent::Ordinal),
        component_name(NakedComponent::Weekday),
        component_name(NakedComponent::WeekNumber),
        component_name(NakedComponent::Year),
        component_name(NakedComponent::Hour),
        component_name(NakedComponent::Minute),
        component_name(NakedComponent::Period),
        component_name(NakedComponent::Second),
        component_name(NakedComponent::Subsecond),
        component_name(NakedComponent::OffsetHour),
        component_name(NakedComponent::OffsetMinute),
        component_name(NakedComponent::OffsetSecond),
    ];
    assert forall|i: int, j: int| 0 <= i < j < 14 implies names[i] != names[j] by {
        if names[i].len() == names[j].len() {
            if names[i][0] == names[j][0] {
                assert(names[i][7] != names[j][7]);
            } else {
                assert(names[i][0] != names[j][0]);
            }
        }
    }
    assert(names[0] != names[1]);
}

impl NakedComponent {
    /// Parse a component (without its modifiers) from the provided name.
    pub fn parse(component_name: &[u8], component_index: usize) -> (r: Result<
        Self,
        InvalidFormatDescription,
    >)
        ensures
            component_named(component_name@) matches Some(c) ==> r == Ok::<
                Self,
                InvalidFormatDescription,
            >(c),
            component_named(component_name@) is None && component_name@.len() == 0 ==> r == Err::<
                Self,
                InvalidFormatDescription,
            >((InvalidFormatDescription::MissingComponentName { index: component_index })),
            component_named(component_name@) is None && component_name@.len() > 0 ==> (
            r matches Err(InvalidFormatDescription::InvalidComponentName { name, index })
                && name@ == utf8_lossy(component_name@) && index == component_index),
    {
        if bytes_eq(component_name, &[100u8, 97, 121]) {
            return Ok(Self::Day);
        }
        if bytes_eq(component_name, &[109u8, 111, 110, 116, 104]) {
            return Ok(Self::Month);
        }
        if bytes_eq(component_name, &[111u8, 114, 100, 105, 110, 97, 108]) {
            return Ok(Self::Ordinal);
        }
        if bytes_eq(component_name, &[119u8, 101, 101, 107, 100, 97, 121]) {
            return Ok(Self::Weekday);
        }
        if bytes_eq(component_name, &[119u8, 101, 101, 107, 95, 110, 117, 109, 98, 101, 114]) {
            return Ok(Self::WeekNumber);
        }
        if bytes_eq(component_name, &[121u8, 101, 97, 114]) {
            return Ok(Self::Year);
        }
        if bytes_eq(component_name, &[104u8, 111, 117, 114]) {
            return Ok(Self::Hour);
        }
        if bytes_eq(component_name, &[109u8, 105, 110, 117, 116, 101]) {
            return Ok(Self::Minute);
        }
        if bytes_eq(component_name, &[112u8, 101, 114, 105, 111, 100]) {
            return Ok(Self::Period);
        }
        if bytes_eq(component_name, &[115u8, 101, 99, 111, 110, 100]) {
            return Ok(Self::Second);
        }
        if bytes_eq(component_name, &[115u8, 117, 98, 115, 101, 99, 111, 110, 100]) {
            return Ok(Self::Subsecond);
        }
        if bytes_eq(component_name, &[111u8, 102, 102, 115, 101, 116, 95, 104, 111, 117, 114]) {
            return Ok(Self::OffsetHour);
        }
        if bytes_eq(component_name, &[111u8, 102, 102, 115, 101, 116, 95, 109, 105, 110, 117, 116, 101]) {
            return Ok(Self::OffsetMinute);
        }
        if bytes_eq(component_name, &[111u8, 102, 102, 115, 101, 116, 95, 115, 101, 99, 111, 110, 100]) {
            return Ok(Self::OffsetSecond);
        }
        if component_name.len() == 0 {
            return Err(InvalidFormatDescription::MissingComponentName { index: component_index });
        }
        Err(
            InvalidFormatDescription::InvalidComponentName {
                name: utf8_lossy_string(component_name),
                index: component_index,
            },
        )
    }

    /// Attach the necessary modifiers to the component.
    pub fn attach_modifiers(self, modifiers: &Modifiers) -> (r: Component)
        ensures
            r == with_modifiers(self, *modifiers),
    {
        match self {
            Self::Day => Component::Day(modifier::Day { padding: modifiers.padding.unwrap_or_default() }),
            Self::Month => Component::Month(
                modifier::Month {
                    padding: modifiers.padding.unwrap_or_default(),
                    repr: modifiers.month_repr.unwrap_or_default(),
                    case_sensitive: modifiers.case_sensitive.unwrap_or(true),
                },
            ),
            Self::Ordinal => Component::Ordinal(
                modifier::Ordinal { padding: modifiers.padding.unwrap_or_default() },
            ),
            Self::Weekday => Component::Weekday(
                modifier::Weekday {
                    repr: modifiers.weekday_repr.unwrap_or_default(),
                    one_indexed: modifiers.weekday_is_one_indexed.unwrap_or(true),
                    case_sensitive: modifiers.case_sensitive.unwrap_or(true),
                },
            ),
            Self::WeekNumber => Component::WeekNumber(
                modifier::WeekNumber {
                    padding: modifiers.padding.unwrap_or_default(),
                    repr: modifiers.week_number_repr.unwrap_or_default(),
                },
            ),
            Self::Year => Component::Year(
                modifier::Year {
                    padding: modifiers.padding.unwrap_or_default(),
                    repr: modifiers.year_repr.unwrap_or_default(),
                    iso_week_based: modifiers.year_is_iso_week_based.unwrap_or_default(),
                    sign_is_mandatory: modifiers.sign_is_mandatory.unwrap_or_default(),
                },
            ),
            Self::Hour => Component::Hour(
                modifier::Hour {
                    padding: modifiers.padding.unwrap_or_default(),
                    is_12_hour_clock: modifiers.hour_is_12_hour_clock.unwrap_or_default(),
                },
            ),
            Self::Minute => Component::Minute(
                modifier::Minute { padding: modifiers.padding.unwrap_or_default() },
            ),
            Self::Period => Component::Period(
                modifier::Period {
                    is_uppercase: modifiers.period_is_uppercase.unwrap_or(true),
                    case_sensitive: modifiers.case_sensitive.unwrap_or(true),
                },
            ),
            Self::Second => Component::Second(
                modifier::Second { padding: modifiers.padding.unwrap_or_default() },
            ),
            Self::Subsecond => Component::Subsecond(
                modifier::Subsecond { digits: modifiers.subsecond_digits.unwrap_or_default() },
            ),
            Self::OffsetHour => Component::OffsetHour(
                modifier::OffsetHour {
                    sign_is_mandatory: modifiers.sign_is_mandatory.unwrap_or_default(),
                    padding: modifiers.padding.unwrap_or_default(),
                },
            ),
            Self::OffsetMinute => Component::OffsetMinute(
                modifier::OffsetMinute { padding: modifiers.padding.unwrap_or_default() },
            ),
            Self::OffsetSecond => Component::OffsetSecond(
                modifier::OffsetSecond { padding: modifiers.padding.unwrap_or_default() },
            ),
        }
    }
}

} // verus!
