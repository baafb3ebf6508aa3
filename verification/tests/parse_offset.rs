use time::error::{Error, Parse, ParseFromDescription, TryFromParsed};
use time::format_description::component::Component;
use time::format_description::modifier::{
    Day, Hour, Month, MonthRepr, OffsetHour, OffsetMinute, OffsetSecond, Ordinal, Padding,
    Period, Subsecond, SubsecondDigits, Weekday, WeekdayRepr, Year, YearRepr,
};
use time::format_description::FormatItem;
use time::parsing::parsed::Parsed;
use time::parsing::{exactly_n_digits_padded, n_to_m_digits, starts_with};
use time::UtcOffset;

fn offset(hours: i8, minutes: i8, seconds: i8) -> UtcOffset {
    UtcOffset::from_hms(hours, minutes, seconds).unwrap()
}

fn hour(sign_is_mandatory: bool, padding: Padding) -> FormatItem<'static> {
    FormatItem::Component(Component::OffsetHour(OffsetHour { sign_is_mandatory, padding }))
}

fn minute(padding: Padding) -> FormatItem<'static> {
    FormatItem::Component(Component::OffsetMinute(OffsetMinute { padding }))
}

fn second(padding: Padding) -> FormatItem<'static> {
    FormatItem::Component(Component::OffsetSecond(OffsetSecond { padding }))
}

fn hh_mm() -> Vec<FormatItem<'static>> {
    vec![hour(false, Padding::Zero), FormatItem::Literal(b":"), minute(Padding::Zero)]
}

#[test]
fn parse_hours_and_minutes() {
    assert_eq!(UtcOffset::parse("-03:42", &hh_mm()), Ok(offset(-3, -42, 0)));
    assert_eq!(UtcOffset::parse("+05:30", &hh_mm()), Ok(offset(5, 30, 0)));
    assert_eq!(UtcOffset::parse("05:30", &hh_mm()), Ok(offset(5, 30, 0)));
}

#[test]
fn parse_with_seconds() {
    let items = vec![
        hour(true, Padding::Zero),
        FormatItem::Literal(b":"),
        minute(Padding::Zero),
        FormatItem::Literal(b":"),
        second(Padding::Zero),
    ];
    assert_eq!(UtcOffset::parse("+01:02:03", &items), Ok(offset(1, 2, 3)));
    assert_eq!(UtcOffset::parse("-01:02:03", &items), Ok(offset(-1, -2, -3)));
    // The sign is mandatory here.
    assert_eq!(
        UtcOffset::parse("01:02:03", &items),
        Err(Parse::ParseFromDescription(ParseFromDescription::InvalidComponent("offset hour")))
    );
}

#[test]
fn parse_errors() {
    assert_eq!(
        UtcOffset::parse("-03:42x", &hh_mm()),
        Err(Parse::UnexpectedTrailingCharacters)
    );
    assert_eq!(
        UtcOffset::parse("-03-42", &hh_mm()),
        Err(Parse::ParseFromDescription(ParseFromDescription::InvalidLiteral))
    );
    assert_eq!(
        UtcOffset::parse("x3:42", &hh_mm()),
        Err(Parse::ParseFromDescription(ParseFromDescription::InvalidComponent("offset hour")))
    );
    assert_eq!(
        UtcOffset::parse("-03:4", &hh_mm()),
        Err(Parse::ParseFromDescription(ParseFromDescription::InvalidComponent("offset minute")))
    );
    assert_eq!(
        UtcOffset::parse("42", &[minute(Padding::Zero)]),
        Err(Parse::TryFromParsed(TryFromParsed::InsufficientInformation))
    );
}

#[test]
fn parse_out_of_range_names_the_offset_component() {
    match UtcOffset::parse("+24:00", &hh_mm()) {
        Err(Parse::TryFromParsed(TryFromParsed::ComponentRange(err))) => {
            assert_eq!(err.name(), "offset hour");
            assert_eq!(err.to_string(), "offset hour must be in the range -23..=23");
        }
        other => panic!("unexpected result {:?}", other),
    }
    match UtcOffset::parse("+01:75", &hh_mm()) {
        Err(Parse::TryFromParsed(TryFromParsed::ComponentRange(err))) => {
            assert_eq!(err.name(), "offset minute");
        }
        other => panic!("unexpected result {:?}", other),
    }
    let items = vec![hour(false, Padding::Zero), second(Padding::Zero)];
    match UtcOffset::parse("0160", &items) {
        Err(Parse::TryFromParsed(TryFromParsed::ComponentRange(err))) => {
            assert_eq!(err.name(), "offset second");
        }
        other => panic!("unexpected result {:?}", other),
    }
}

#[test]
fn parse_error_converts_to_error() {
    let err: Error = UtcOffset::parse("-03:42x", &hh_mm()).unwrap_err().into();
    assert_eq!(err, Error::UnexpectedTrailingCharacters);
    let err: Error = UtcOffset::parse("-03-42", &hh_mm()).unwrap_err().into();
    assert_eq!(err, Error::ParseFromDescription(ParseFromDescription::InvalidLiteral));
}

#[test]
fn parse_padding() {
    let spaced = vec![hour(false, Padding::Space), FormatItem::Literal(b":"), minute(Padding::Space)];
    assert_eq!(UtcOffset::parse(" 5: 7", &spaced), Ok(offset(5, 7, 0)));
    assert_eq!(UtcOffset::parse("-12:30", &spaced), Ok(offset(-12, -30, 0)));
    let unpadded = vec![hour(false, Padding::Unpadded), FormatItem::Literal(b":"), minute(Padding::Unpadded)];
    assert_eq!(UtcOffset::parse("-3:7", &unpadded), Ok(offset(-3, -7, 0)));
    assert_eq!(UtcOffset::parse("11:45", &unpadded), Ok(offset(11, 45, 0)));
}

#[test]
fn parse_skips_date_and_time_components() {
    let items = vec![
        FormatItem::Component(Component::Year(Year {
            padding: Padding::Zero,
            repr: YearRepr::Full,
            iso_week_based: false,
            sign_is_mandatory: false,
        })),
        FormatItem::Literal(b"-"),
        FormatItem::Component(Component::Month(Month {
            padding: Padding::Zero,
            repr: MonthRepr::Short,
            case_sensitive: false,
        })),
        FormatItem::Literal(b"-"),
        FormatItem::Component(Component::Day(Day { padding: Padding::Zero })),
        FormatItem::Literal(b" "),
        FormatItem::Component(Component::Weekday(Weekday {
            repr: WeekdayRepr::Long,
            one_indexed: true,
            case_sensitive: true,
        })),
        FormatItem::Literal(b" "),
        FormatItem::Component(Component::Hour(Hour { padding: Padding::Zero, is_12_hour_clock: true })),
        FormatItem::Component(Component::Period(Period { is_uppercase: true, case_sensitive: true })),
        FormatItem::Literal(b" "),
        hour(true, Padding::Zero),
    ];
    assert_eq!(UtcOffset::parse("2021-mAr-05 Friday 07PM +02", &items), Ok(offset(2, 0, 0)));
    assert_eq!(
        UtcOffset::parse("2021-Mar-00 Friday 07PM +02", &items),
        Err(Parse::ParseFromDescription(ParseFromDescription::InvalidComponent("day")))
    );
    assert_eq!(
        UtcOffset::parse("2021-Mar-05 friday 07PM +02", &items),
        Err(Parse::ParseFromDescription(ParseFromDescription::InvalidComponent("weekday")))
    );
    assert_eq!(
        UtcOffset::parse("2021-Mar-05 Friday 00PM +02", &items),
        Err(Parse::ParseFromDescription(ParseFromDescription::InvalidComponent("hour")))
    );
    assert_eq!(
        UtcOffset::parse("2021-Mar-05 Friday 07pm +02", &items),
        Err(Parse::ParseFromDescription(ParseFromDescription::InvalidComponent("period")))
    );
    assert_eq!(
        UtcOffset::parse("2021-Xyz-05 Friday 07PM +02", &items),
        Err(Parse::ParseFromDescription(ParseFromDescription::InvalidComponent("month")))
    );
}

#[test]
fn parse_numeric_month_weekday_ordinal_subsecond() {
    let items = vec![
        FormatItem::Component(Component::Month(Month {
            padding: Padding::Zero,
            repr: MonthRepr::Numerical,
            case_sensitive: true,
        })),
        FormatItem::Component(Component::Weekday(Weekday {
            repr: WeekdayRepr::Sunday,
            one_indexed: false,
            case_sensitive: true,
        })),
        FormatItem::Component(Component::Ordinal(Ordinal { padding: Padding::Zero })),
        FormatItem::Literal(b"."),
        FormatItem::Component(Component::Subsecond(Subsecond { digits: SubsecondDigits::OneOrMore })),
        FormatItem::Literal(b"Z"),
        hour(true, Padding::Zero),
    ];
    assert_eq!(UtcOffset::parse("120365.123456789123Z-01", &items), Ok(offset(-1, 0, 0)));
    assert_eq!(
        UtcOffset::parse("130365.1Z-01", &items),
        Err(Parse::ParseFromDescription(ParseFromDescription::InvalidComponent("month")))
    );
    assert_eq!(
        UtcOffset::parse("127365.1Z-01", &items),
        Err(Parse::ParseFromDescription(ParseFromDescription::InvalidComponent("weekday")))
    );
    assert_eq!(
        UtcOffset::parse("120000.1Z-01", &items),
        Err(Parse::ParseFromDescription(ParseFromDescription::InvalidComponent("ordinal")))
    );
    assert_eq!(
        UtcOffset::parse("120365.Z-01", &items),
        Err(Parse::ParseFromDescription(ParseFromDescription::InvalidComponent("subsecond")))
    );
}

#[test]
fn parse_reads_back_format() {
    let items = vec![
        hour(true, Padding::Zero),
        FormatItem::Literal(b":"),
        minute(Padding::Space),
        FormatItem::Literal(b":"),
        second(Padding::Zero),
    ];
    for (h, m, s) in [(0, 0, 0), (5, 30, 0), (-5, -30, -7), (23, 59, 59), (-23, -59, -59), (0, 1, 2)] {
        let o = offset(h, m, s);
        let text = o.format(&items).unwrap();
        assert_eq!(UtcOffset::parse(&text, &items), Ok(o));
    }
    // Less than an hour west of UTC: the minutes carry no sign, so the offset reads back east.
    let o = offset(0, -30, 0);
    let text = o.format(&items).unwrap();
    assert_eq!(text, "-00:30:00");
    assert_eq!(UtcOffset::parse(&text, &items), Ok(offset(0, 30, 0)));
}

#[test]
fn parsed_keeps_values_only_on_success() {
    let mut parsed = Parsed::new();
    assert_eq!(parsed.parse_items(b"+01:02", &hh_mm()), Ok(&b""[..]));
    assert_eq!(parsed.offset_hour, Some(1));
    assert_eq!(parsed.offset_minute, Some(2));
    let mut parsed = Parsed::new();
    assert_eq!(
        parsed.parse_items(b"+01-02", &hh_mm()),
        Err(ParseFromDescription::InvalidLiteral)
    );
    assert_eq!(parsed, Parsed::new());
    assert_eq!(UtcOffset::try_from(Parsed::new()), Err(TryFromParsed::InsufficientInformation));
}

#[test]
fn digit_combinators() {
    let item = n_to_m_digits::<u32>(b"12345x", 1, 3).unwrap();
    assert_eq!((item.0, item.1), (&b"45x"[..], 123));
    assert!(n_to_m_digits::<u32>(b"1x", 2, 3).is_none());
    let item = exactly_n_digits_padded::<u8>(b" 7x", 2, Padding::Space).unwrap();
    assert_eq!((item.0, item.1), (&b"x"[..], 7));
    assert!(exactly_n_digits_padded::<u8>(b" 7x", 2, Padding::Zero).is_none());
    let item = exactly_n_digits_padded::<u16>(b"7x", 3, Padding::Unpadded).unwrap();
    assert_eq!((item.0, item.1), (&b"x"[..], 7));
    assert!(starts_with(b"JANUARY", b"Jan", false));
    assert!(!starts_with(b"JANUARY", b"Jan", true));
    assert!(!starts_with(b"Ja", b"Jan", false));
}
