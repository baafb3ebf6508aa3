use time::error::ComponentRange;
use time::format_description::component::Component;
use time::format_description::modifier::{Day, OffsetHour, OffsetMinute, OffsetSecond, Padding};
use time::format_description::FormatItem;
use time::UtcOffset;

fn offset(hours: i8, minutes: i8, seconds: i8) -> UtcOffset {
    UtcOffset::from_hms(hours, minutes, seconds).unwrap()
}

#[test]
fn utc_is_zero() {
    assert_eq!(UtcOffset::utc().as_hms(), (0, 0, 0));
    assert!(UtcOffset::utc().is_utc());
}

#[test]
fn from_hms_examples() {
    assert_eq!(UtcOffset::from_hms(1, 2, 3).unwrap().as_hms(), (1, 2, 3));
    assert_eq!(UtcOffset::from_hms(1, -2, -3).unwrap().as_hms(), (1, 2, 3));
    assert_eq!(UtcOffset::from_hms(-1, 2, 3).unwrap().as_hms(), (-1, -2, -3));
    assert_eq!(UtcOffset::from_hms(0, -2, 3).unwrap().as_hms(), (0, -2, -3));
    assert_eq!(UtcOffset::from_hms(0, 0, -3).unwrap().as_hms(), (0, 0, -3));
}

#[test]
fn from_hms_out_of_range() {
    let err: ComponentRange = UtcOffset::from_hms(24, 0, 0).unwrap_err();
    assert_eq!(err.name(), "hours");
    assert_eq!(err.to_string(), "hours must be in the range -23..=23");
    assert_eq!(UtcOffset::from_hms(0, 60, 0).unwrap_err().name(), "minutes");
    assert_eq!(UtcOffset::from_hms(0, 0, -60).unwrap_err().name(), "seconds");
    assert_eq!(UtcOffset::from_hms(-24, 60, 60).unwrap_err().name(), "hours");
}

#[test]
fn from_whole_seconds_examples() {
    assert_eq!(UtcOffset::from_whole_seconds(3_723).unwrap().as_hms(), (1, 2, 3));
    assert_eq!(UtcOffset::from_whole_seconds(-3_723).unwrap().as_hms(), (-1, -2, -3));
    assert_eq!(UtcOffset::from_whole_seconds(86_399).unwrap().as_hms(), (23, 59, 59));
    let err = UtcOffset::from_whole_seconds(86_400).unwrap_err();
    assert_eq!(err.name(), "seconds");
    assert_eq!(err.to_string(), "seconds must be in the range -86399..=86399");
}

#[test]
fn whole_seconds_roundtrip() {
    for seconds in [-86_399, -3_723, -1, 0, 59, 3_600, 50_000, 86_399] {
        assert_eq!(UtcOffset::from_whole_seconds(seconds).unwrap().whole_seconds(), seconds);
    }
    let o = offset(-5, -30, -15);
    assert_eq!(UtcOffset::from_whole_seconds(o.whole_seconds()).unwrap(), o);
}

#[test]
fn getters() {
    let east = offset(1, 2, 3);
    let west = offset(-1, -2, -3);
    assert_eq!(east.whole_hours(), 1);
    assert_eq!(west.whole_hours(), -1);
    assert_eq!(east.whole_minutes(), 62);
    assert_eq!(west.whole_minutes(), -62);
    assert_eq!(east.minutes_past_hour(), 2);
    assert_eq!(west.minutes_past_hour(), -2);
    assert_eq!(east.whole_seconds(), 3723);
    assert_eq!(west.whole_seconds(), -3723);
    assert_eq!(east.seconds_past_minute(), 3);
    assert_eq!(west.seconds_past_minute(), -3);
}

#[test]
fn offset_sign_checks() {
    assert!(!offset(1, 2, 3).is_utc());
    assert!(!offset(-1, -2, -3).is_utc());
    assert!(offset(1, 2, 3).is_positive());
    assert!(!offset(-1, -2, -3).is_positive());
    assert!(!UtcOffset::utc().is_positive());
    assert!(!offset(1, 2, 3).is_negative());
    assert!(offset(-1, -2, -3).is_negative());
    assert!(!UtcOffset::utc().is_negative());
    assert!(offset(0, 0, -1).is_negative());
}

#[test]
fn negation() {
    assert_eq!((-offset(1, 2, 3)).as_hms(), (-1, -2, -3));
    assert_eq!(-(-offset(4, 5, 6)), offset(4, 5, 6));
    assert!((-offset(1, 0, 0)).is_negative());
}

#[test]
fn to_string_forms() {
    assert_eq!(offset(1, 2, 3).to_string(), "+01:02:03");
    assert_eq!(offset(-1, -2, -3).to_string(), "-01:02:03");
    assert_eq!(UtcOffset::utc().to_string(), "+00:00:00");
    assert_eq!(offset(-23, -59, -59).to_string(), "-23:59:59");
}

#[test]
fn format_with_description() {
    let format = [
        FormatItem::Component(Component::OffsetHour(OffsetHour {
            sign_is_mandatory: true,
            padding: Padding::Zero,
        })),
        FormatItem::Literal(b":"),
        FormatItem::Component(Component::OffsetMinute(OffsetMinute { padding: Padding::Zero })),
    ];
    assert_eq!(offset(1, 0, 0).format(&format).unwrap(), "+01:00");
    assert_eq!(offset(-3, -42, 0).format(&format).unwrap(), "-03:42");
    let seconds = [FormatItem::Component(Component::OffsetSecond(OffsetSecond {
        padding: Padding::Space,
    }))];
    assert_eq!(offset(0, 0, 7).format(&seconds).unwrap(), " 7");
}

#[test]
fn format_into_stops_at_missing_information() {
    let format = [
        FormatItem::Literal(b"at "),
        FormatItem::Component(Component::Day(Day { padding: Padding::Zero })),
        FormatItem::Literal(b"!"),
    ];
    let mut output = Vec::new();
    let result = offset(1, 0, 0).format_into(&mut output, &format);
    assert_eq!(result, Err(time::error::Format::InsufficientTypeInformation));
    assert_eq!(output, b"at ".to_vec());
    assert!(offset(1, 0, 0).format(&format).is_err());
}

#[test]
fn local_offset_is_unknown_here() {
    assert!(UtcOffset::local_offset_at(0).is_err());
    assert!(UtcOffset::current_local_offset(1_700_000_000).is_err());
    assert!(time::sys::local_offset_at(0).is_none());
}
