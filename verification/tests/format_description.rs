use time::error::InvalidFormatDescription;
use time::format_description::component::{Component, Modifiers, NakedComponent};
use time::format_description::modifier::{
    Day, Hour, Month, MonthRepr, OffsetHour, Padding, Period, Subsecond, SubsecondDigits,
    WeekNumber, WeekNumberRepr, Weekday, WeekdayRepr, Year, YearRepr,
};

#[test]
fn parse_known_names() {
    let names: [(&[u8], NakedComponent); 14] = [
        (b"day", NakedComponent::Day),
        (b"month", NakedComponent::Month),
        (b"ordinal", NakedComponent::Ordinal),
        (b"weekday", NakedComponent::Weekday),
        (b"week_number", NakedComponent::WeekNumber),
        (b"year", NakedComponent::Year),
        (b"hour", NakedComponent::Hour),
        (b"minute", NakedComponent::Minute),
        (b"period", NakedComponent::Period),
        (b"second", NakedComponent::Second),
        (b"subsecond", NakedComponent::Subsecond),
        (b"offset_hour", NakedComponent::OffsetHour),
        (b"offset_minute", NakedComponent::OffsetMinute),
        (b"offset_second", NakedComponent::OffsetSecond),
    ];
    for (name, component) in names {
        assert_eq!(NakedComponent::parse(name, 7), Ok(component));
    }
}

#[test]
fn parse_missing_and_invalid_names() {
    assert_eq!(
        NakedComponent::parse(b"", 3),
        Err(InvalidFormatDescription::MissingComponentName { index: 3 })
    );
    assert_eq!(
        NakedComponent::parse(b"days", 9),
        Err(InvalidFormatDescription::InvalidComponentName { name: "days".to_string(), index: 9 })
    );
    assert_eq!(
        NakedComponent::parse(b"Day", 0),
        Err(InvalidFormatDescription::InvalidComponentName { name: "Day".to_string(), index: 0 })
    );
    assert_eq!(
        NakedComponent::parse(&[0xff, b'a'], 1),
        Err(InvalidFormatDescription::InvalidComponentName { name: "\u{fffd}a".to_string(), index: 1 })
    );
}

#[test]
fn attach_default_modifiers() {
    let none = Modifiers::default();
    assert_eq!(NakedComponent::Day.attach_modifiers(&none), Component::Day(Day { padding: Padding::Zero }));
    assert_eq!(
        NakedComponent::Month.attach_modifiers(&none),
        Component::Month(Month { padding: Padding::Zero, repr: MonthRepr::Numerical, case_sensitive: true })
    );
    assert_eq!(
        NakedComponent::Weekday.attach_modifiers(&none),
        Component::Weekday(Weekday { repr: WeekdayRepr::Long, one_indexed: true, case_sensitive: true })
    );
    assert_eq!(
        NakedComponent::WeekNumber.attach_modifiers(&none),
        Component::WeekNumber(WeekNumber { padding: Padding::Zero, repr: WeekNumberRepr::Iso })
    );
    assert_eq!(
        NakedComponent::Year.attach_modifiers(&none),
        Component::Year(Year { padding: Padding::Zero, repr: YearRepr::Full, iso_week_based: false, sign_is_mandatory: false })
    );
    assert_eq!(
        NakedComponent::Hour.attach_modifiers(&none),
        Component::Hour(Hour { padding: Padding::Zero, is_12_hour_clock: false })
    );
    assert_eq!(
        NakedComponent::Period.attach_modifiers(&none),
        Component::Period(Period { is_uppercase: true, case_sensitive: true })
    );
    assert_eq!(
        NakedComponent::Subsecond.attach_modifiers(&none),
        Component::Subsecond(Subsecond { digits: SubsecondDigits::OneOrMore })
    );
    assert_eq!(
        NakedComponent::OffsetHour.attach_modifiers(&none),
        Component::OffsetHour(OffsetHour { sign_is_mandatory: false, padding: Padding::Zero })
    );
}

#[test]
fn attach_given_modifiers() {
    let mods = Modifiers {
        padding: Some(Padding::Space),
        month_repr: Some(MonthRepr::Short),
        case_sensitive: Some(false),
        weekday_is_one_indexed: Some(false),
        weekday_repr: Some(WeekdayRepr::Monday),
        sign_is_mandatory: Some(true),
        year_repr: Some(YearRepr::LastTwo),
        year_is_iso_week_based: Some(true),
        subsecond_digits: Some(SubsecondDigits::Three),
        ..Modifiers::default()
    };
    assert_eq!(NakedComponent::Day.attach_modifiers(&mods), Component::Day(Day { padding: Padding::Space }));
    assert_eq!(
        NakedComponent::Month.attach_modifiers(&mods),
        Component::Month(Month { padding: Padding::Space, repr: MonthRepr::Short, case_sensitive: false })
    );
    assert_eq!(
        NakedComponent::Weekday.attach_modifiers(&mods),
        Component::Weekday(Weekday { repr: WeekdayRepr::Monday, one_indexed: false, case_sensitive: false })
    );
    assert_eq!(
        NakedComponent::Year.attach_modifiers(&mods),
        Component::Year(Year { padding: Padding::Space, repr: YearRepr::LastTwo, iso_week_based: true, sign_is_mandatory: true })
    );
    assert_eq!(
        NakedComponent::Subsecond.attach_modifiers(&mods),
        Component::Subsecond(Subsecond { digits: SubsecondDigits::Three })
    );
}

#[test]
fn modifier_defaults() {
    assert_eq!(Padding::default(), Padding::Zero);
    assert_eq!(MonthRepr::default(), MonthRepr::Numerical);
    assert_eq!(WeekdayRepr::default(), WeekdayRepr::Long);
    assert_eq!(WeekNumberRepr::default(), WeekNumberRepr::Iso);
    assert_eq!(YearRepr::default(), YearRepr::Full);
    assert_eq!(SubsecondDigits::default(), SubsecondDigits::OneOrMore);
}
