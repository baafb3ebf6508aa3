use time::format_description::component::Component;
use time::format_description::modifier::{
    Day, Hour, Minute, Month, MonthRepr, OffsetHour, OffsetMinute, OffsetSecond, Ordinal,
    Padding, Period, Second, Subsecond,
    SubsecondDigits, WeekNumber, WeekNumberRepr, Weekday, WeekdayRepr, Year, YearRepr,
};
use time::formatting::{
    format_component, format_number, format_number_pad_space, format_number_pad_zero,
    DateFields, DigitCount, TimeFields,
};
use time::error::Format;
use time::UtcOffset;

fn date() -> DateFields {
    // 2021-03-05, a Friday: day 64 of the year, ISO week 9 of 2021.
    DateFields {
        year: 2021,
        month: 3,
        day: 5,
        ordinal: 64,
        weekday: 4,
        iso_year: 2021,
        iso_week: 9,
        sunday_based_week: 9,
        monday_based_week: 9,
    }
}

fn time_of_day(hour: u8, nanosecond: u32) -> TimeFields {
    TimeFields { hour, minute: 7, second: 9, nanosecond }
}

fn fmt(component: Component, date: Option<DateFields>, time: Option<TimeFields>) -> String {
    let mut out = Vec::new();
    let n = format_component(&mut out, component, date, time, None).unwrap();
    assert_eq!(n, out.len());
    String::from_utf8(out).unwrap()
}

#[test]
fn digit_counts() {
    assert_eq!(0u8.num_digits(), 1);
    assert_eq!(99u8.num_digits(), 2);
    assert_eq!(255u8.num_digits(), 3);
    assert_eq!(9_999u16.num_digits(), 4);
    assert_eq!(65_535u16.num_digits(), 5);
    assert_eq!(0u32.num_digits(), 1);
    assert_eq!(999_999_999u32.num_digits(), 9);
    assert_eq!(1_000_000_000u32.num_digits(), 10);
    assert_eq!(u32::MAX.num_digits(), 10);
    for v in [1u32, 9, 10, 99, 100, 12_345, 99_999, 100_000, 4_000_000_000] {
        assert_eq!(v.num_digits() as usize, v.to_string().len());
    }
}

#[test]
fn write_appends() {
    let mut out = b"ab".to_vec();
    assert_eq!(time::formatting::write(&mut out, b"cde"), 3);
    assert_eq!(out, b"abcde".to_vec());
}

#[test]
fn number_padding() {
    let mut out = Vec::new();
    assert_eq!(format_number::<3>(&mut out, 7, Padding::Zero), 3);
    assert_eq!(format_number::<3>(&mut out, 7, Padding::Space), 3);
    assert_eq!(format_number::<3>(&mut out, 7, Padding::Unpadded), 1);
    assert_eq!(format_number::<2>(&mut out, 1234, Padding::Zero), 4);
    assert_eq!(out, b"007  771234".to_vec());
    let mut out = Vec::new();
    assert_eq!(format_number_pad_space::<4>(&mut out, 42), 4);
    assert_eq!(format_number_pad_zero::<4>(&mut out, 42), 4);
    assert_eq!(out, b"  420042".to_vec());
}

#[test]
fn date_components() {
    let d = Some(date());
    assert_eq!(fmt(Component::Day(Day { padding: Padding::Zero }), d, None), "05");
    assert_eq!(fmt(Component::Day(Day { padding: Padding::Space }), d, None), " 5");
    assert_eq!(
        fmt(Component::Month(Month { padding: Padding::Zero, repr: MonthRepr::Numerical, case_sensitive: true }), d, None),
        "03"
    );
    assert_eq!(
        fmt(Component::Month(Month { padding: Padding::Zero, repr: MonthRepr::Long, case_sensitive: true }), d, None),
        "March"
    );
    assert_eq!(
        fmt(Component::Month(Month { padding: Padding::Zero, repr: MonthRepr::Short, case_sensitive: false }), d, None),
        "Mar"
    );
    assert_eq!(fmt(Component::Ordinal(Ordinal { padding: Padding::Zero }), d, None), "064");
    assert_eq!(
        fmt(Component::Weekday(Weekday { repr: WeekdayRepr::Long, one_indexed: true, case_sensitive: true }), d, None),
        "Friday"
    );
    assert_eq!(
        fmt(Component::Weekday(Weekday { repr: WeekdayRepr::Short, one_indexed: true, case_sensitive: true }), d, None),
        "Fri"
    );
    assert_eq!(
        fmt(Component::Weekday(Weekday { repr: WeekdayRepr::Sunday, one_indexed: false, case_sensitive: true }), d, None),
        "5"
    );
    assert_eq!(
        fmt(Component::Weekday(Weekday { repr: WeekdayRepr::Monday, one_indexed: true, case_sensitive: true }), d, None),
        "5"
    );
    assert_eq!(
        fmt(Component::WeekNumber(WeekNumber { padding: Padding::Zero, repr: WeekNumberRepr::Iso }), d, None),
        "09"
    );
}

#[test]
fn sunday_is_first_or_last() {
    let mut sunday = date();
    sunday.weekday = 6;
    assert_eq!(
        fmt(Component::Weekday(Weekday { repr: WeekdayRepr::Sunday, one_indexed: false, case_sensitive: true }), Some(sunday), None),
        "0"
    );
    assert_eq!(
        fmt(Component::Weekday(Weekday { repr: WeekdayRepr::Monday, one_indexed: false, case_sensitive: true }), Some(sunday), None),
        "6"
    );
    assert_eq!(
        fmt(Component::Weekday(Weekday { repr: WeekdayRepr::Long, one_indexed: true, case_sensitive: true }), Some(sunday), None),
        "Sunday"
    );
}

#[test]
fn years() {
    let full = Year { padding: Padding::Zero, repr: YearRepr::Full, iso_week_based: false, sign_is_mandatory: false };
    let signed = Year { sign_is_mandatory: true, ..full };
    let last_two = Year { repr: YearRepr::LastTwo, ..full };
    let mut d = date();
    assert_eq!(fmt(Component::Year(full), Some(d), None), "2021");
    assert_eq!(fmt(Component::Year(signed), Some(d), None), "+2021");
    assert_eq!(fmt(Component::Year(last_two), Some(d), None), "21");
    d.year = -42;
    assert_eq!(fmt(Component::Year(full), Some(d), None), "-0042");
    assert_eq!(fmt(Component::Year(last_two), Some(d), None), "42");
    d.year = 5;
    assert_eq!(fmt(Component::Year(Year { padding: Padding::Space, ..full }), Some(d), None), "   5");
    d.iso_year = 2020;
    assert_eq!(fmt(Component::Year(Year { iso_week_based: true, ..full }), Some(d), None), "2020");
}

#[test]
fn time_components() {
    let h24 = Hour { padding: Padding::Zero, is_12_hour_clock: false };
    let h12 = Hour { padding: Padding::Zero, is_12_hour_clock: true };
    assert_eq!(fmt(Component::Hour(h24), None, Some(time_of_day(0, 0))), "00");
    assert_eq!(fmt(Component::Hour(h12), None, Some(time_of_day(0, 0))), "12");
    assert_eq!(fmt(Component::Hour(h12), None, Some(time_of_day(12, 0))), "12");
    assert_eq!(fmt(Component::Hour(h12), None, Some(time_of_day(13, 0))), "01");
    assert_eq!(fmt(Component::Hour(h12), None, Some(time_of_day(11, 0))), "11");
    assert_eq!(fmt(Component::Minute(Minute { padding: Padding::Zero }), None, Some(time_of_day(1, 0))), "07");
    assert_eq!(fmt(Component::Second(Second { padding: Padding::Unpadded }), None, Some(time_of_day(1, 0))), "9");
    let upper = Period { is_uppercase: true, case_sensitive: true };
    let lower = Period { is_uppercase: false, case_sensitive: true };
    assert_eq!(fmt(Component::Period(upper), None, Some(time_of_day(11, 0))), "AM");
    assert_eq!(fmt(Component::Period(lower), None, Some(time_of_day(11, 0))), "am");
    assert_eq!(fmt(Component::Period(upper), None, Some(time_of_day(12, 0))), "PM");
    assert_eq!(fmt(Component::Period(lower), None, Some(time_of_day(23, 0))), "pm");
}

#[test]
fn subseconds() {
    let sub = |digits, nanos| fmt(Component::Subsecond(Subsecond { digits }), None, Some(time_of_day(0, nanos)));
    assert_eq!(sub(SubsecondDigits::OneOrMore, 0), "0");
    assert_eq!(sub(SubsecondDigits::OneOrMore, 500_000_000), "5");
    assert_eq!(sub(SubsecondDigits::OneOrMore, 120_000_000), "12");
    assert_eq!(sub(SubsecondDigits::OneOrMore, 123_456_789), "123456789");
    assert_eq!(sub(SubsecondDigits::OneOrMore, 1_000), "000001");
    assert_eq!(sub(SubsecondDigits::Three, 123_456_789), "123");
    assert_eq!(sub(SubsecondDigits::Nine, 5), "000000005");
    assert_eq!(sub(SubsecondDigits::One, 987_654_321), "9");
    assert_eq!(sub(SubsecondDigits::Six, 7_000_000), "007000");
}

#[test]
fn offset_components() {
    let o = UtcOffset::from_hms(-5, -30, -7).unwrap();
    let mut out = Vec::new();
    format_component(&mut out, Component::OffsetHour(OffsetHour { sign_is_mandatory: false, padding: Padding::Zero }), None, None, Some(o)).unwrap();
    format_component(&mut out, Component::OffsetMinute(OffsetMinute { padding: Padding::Zero }), None, None, Some(o)).unwrap();
    format_component(&mut out, Component::OffsetSecond(OffsetSecond { padding: Padding::Zero }), None, None, Some(o)).unwrap();
    assert_eq!(out, b"-053007".to_vec());
    let mut out = Vec::new();
    let east = UtcOffset::from_hms(5, 0, 0).unwrap();
    format_component(&mut out, Component::OffsetHour(OffsetHour { sign_is_mandatory: true, padding: Padding::Zero }), None, None, Some(east)).unwrap();
    format_component(&mut out, Component::OffsetHour(OffsetHour { sign_is_mandatory: false, padding: Padding::Zero }), None, None, Some(east)).unwrap();
    assert_eq!(out, b"+0505".to_vec());
}

#[test]
fn missing_information() {
    let mut out = b"x".to_vec();
    let day = Component::Day(Day { padding: Padding::Zero });
    assert_eq!(format_component(&mut out, day, None, Some(time_of_day(1, 1)), None), Err(Format::InsufficientTypeInformation));
    let minute = Component::Minute(Minute { padding: Padding::Zero });
    assert_eq!(format_component(&mut out, minute, Some(date()), None, None), Err(Format::InsufficientTypeInformation));
    assert_eq!(out, b"x".to_vec());
}
