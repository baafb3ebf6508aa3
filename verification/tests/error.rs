use core::convert::TryFrom;

use time::error::{ComponentRange, DifferentVariant, Format, InvalidFormatDescription};
use time::{Error, UtcOffset};

fn range_error() -> ComponentRange {
    UtcOffset::from_hms(0, 99, 0).unwrap_err()
}

#[test]
fn component_range_name_and_message() {
    let err = range_error();
    assert_eq!(err.name(), "minutes");
    assert_eq!(err.to_string(), "minutes must be in the range -59..=59");
}

#[test]
fn component_range_roundtrip_through_error() {
    let err = range_error();
    let wrapped: Error = err.into();
    assert_eq!(wrapped, Error::ComponentRange(err));
    assert_eq!(ComponentRange::try_from(wrapped), Ok(err));
}

#[test]
fn component_range_from_other_variant() {
    let wrapped = Error::Format(Format::InsufficientTypeInformation);
    assert_eq!(ComponentRange::try_from(wrapped), Err(DifferentVariant));
}

#[test]
fn invalid_format_description_roundtrip() {
    let err = InvalidFormatDescription::MissingComponentName { index: 3 };
    let wrapped: Error = err.clone().into();
    assert_eq!(InvalidFormatDescription::try_from(wrapped), Ok(err));
    assert_eq!(
        InvalidFormatDescription::try_from(Error::DifferentVariant(DifferentVariant)),
        Err(DifferentVariant)
    );
}

#[test]
fn different_variant_roundtrip() {
    let wrapped: Error = DifferentVariant.into();
    assert_eq!(DifferentVariant::try_from(wrapped), Ok(DifferentVariant));
    assert_eq!(DifferentVariant::try_from(Error::ComponentRange(range_error())), Err(DifferentVariant));
}

#[test]
fn messages() {
    assert_eq!(DifferentVariant.to_string(), "value was of a different variant than required");
    assert_eq!(
        InvalidFormatDescription::UnclosedOpeningBracket { index: 4 }.to_string(),
        "unclosed opening bracket at byte index 4"
    );
    assert_eq!(
        InvalidFormatDescription::InvalidComponentName { name: "dya".to_string(), index: 1 }
            .to_string(),
        "invalid component name `dya` at byte index 1"
    );
    assert_eq!(
        InvalidFormatDescription::InvalidModifier { value: "x:y".to_string(), index: 12 }
            .to_string(),
        "invalid modifier `x:y` at byte index 12"
    );
    assert_eq!(
        InvalidFormatDescription::MissingComponentName { index: 0 }.to_string(),
        "missing component name at byte index 0"
    );
}
