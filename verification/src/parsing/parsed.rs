//! The values found while parsing, and the parsing of whole descriptions.

use vstd::prelude::*;

use crate::error::ParseFromDescription;
use crate::format_description::{Component, FormatItem};
use crate::parsing::component::{
    nonzero, parse_day, parse_month, parse_offset_hour, parse_ordinal, parse_period,
    parse_subsecond, parse_two_digits, parse_weekday, parse_year, spec_parse_month,
    spec_parse_offset_hour, spec_parse_period, spec_parse_subsecond, spec_parse_weekday,
    spec_parse_year, two_digits,
};
use crate::parsing::{skip_prefix, spec_digits_padded, starts_with, starts_with_case};

verus! {

/// What a component reads from the start of the input: how many bytes and the value, or `None`
/// when the input does not hold the component as its modifiers describe it. A day, an ordinal
/// and an hour of the 12-hour clock must not be zero.
pub open spec fn spec_component(s: Seq<u8>, component: Component) -> Option<(nat, int)> {
    match component {
        Component::Day(m) => nonzero(two_digits(s, m.padding)),
        Component::Month(m) => spec_parse_month(s, m),
        Component::Ordinal(m) => nonzero(
            match spec_digits_padded(s, 3, m.padding) {
                Some((k, v)) => Some((k, v as int)),
                None => None,
            },
        ),
        Component::Weekday(m) => spec_parse_weekday(s, m),
        Component::WeekNumber(m) => two_digits(s, m.padding),
        Component::Year(m) => spec_parse_year(s, m),
        Component::Hour(m) => if m.is_12_hour_clock {
            nonzero(two_digits(s, m.padding))
        } else {
            two_digits(s, m.padding)
        },
        Component::Minute(m) => two_digits(s, m.padding),
        Component::Period(m) => spec_parse_period(s, m),
        Component::Second(m) => two_digits(s, m.padding),
        Component::Subsecond(m) => spec_parse_subsecond(s, m),
        Component::OffsetHour(m) => spec_parse_offset_hour(s, m),
        Component::OffsetMinute(m) => two_digits(s, m.padding),
        Component::OffsetSecond(m) => two_digits(s, m.padding),
    }
}

/// The error for a component that could not be parsed: the component's name.
pub open spec fn component_error(component: Component) -> ParseFromDescription {
    ParseFromDescription::InvalidComponent(
        match component {
            Component::Day(_) => "day",
            Component::Month(_) => "month",
            Component::Ordinal(_) => "ordinal",
            Component::Weekday(_) => "weekday",
            Component::WeekNumber(_) => "week number",
            Component::Year(_) => "year",
            Component::Hour(_) => "hour",
            Component::Minute(_) => "minute",
            Component::Period(_) => "period",
            Component::Second(_) => "second",
            Component::Subsecond(_) => "subsecond",
            Component::OffsetHour(_) => "offset hour",
            Component::OffsetMinute(_) => "offset minute",
            Component::OffsetSecond(_) => "offset second",
        },
    )
}

/// The values of an offset that parsing has found so far. Components of a date or a time are
/// read and checked; their values do not make an offset and are not kept.
#[derive(Debug, Clone, Copy, PartialEq, Eq)]
pub struct Parsed {
    /// The hours of the offset, with its sign.
    pub offset_hour: Option<i8>,
    /// The minutes of the offset past the hour, without sign.
    pub offset_minute: Option<u8>,
    /// The seconds of the offset past the minute, without sign.
    pub offset_second: Option<u8>,
}

/// The values after a component has given `value`: the offset's components are kept, the
/// latest one of each kind winning.
pub open spec fn with_value(parsed: Parsed, component: Component, value: int) -> Parsed {
    match component {
        Component::OffsetHour(_) => Parsed { offset_hour: Some(value as i8), ..parsed },
        Component::OffsetMinute(_) => Parsed { offset_minute: Some(value as u8), ..parsed },
        Component::OffsetSecond(_) => Parsed { offset_second: Some(value as u8), ..parsed },
        _ => parsed,
    }
}

/// What parsing the items one after the other does: the input that is left and the values
/// found, or the error of the first item that does not match. A literal must be there byte for
/// byte.
pub open spec fn items_parse(s: Seq<u8>, items: Seq<FormatItem>, parsed: Parsed) -> Result<
    (Seq<u8>, Parsed),
    ParseFromDescription,
>
    decreases items.len(),
{
    if items.len() == 0 {
        Ok((s, parsed))
    } else {
        match items[0] {
            FormatItem::Literal(literal) => if starts_with_case(s, literal@, true) {
                items_parse(s.skip(literal@.len() as int), items.drop_first(), parsed)
            } else {
                Err(ParseFromDescription::InvalidLiteral)
            },
            FormatItem::Component(component) => match spec_component(s, component) {
                Some((k, v)) => items_parse(
                    s.skip(k as int),
                    items.drop_first(),
                    with_value(parsed, component, v),
                ),
                None => Err(component_error(component)),
            },
        }
    }
}

impl Parsed {
    /// No values found.
    pub open spec fn empty() -> Parsed {
        Parsed { offset_hour: None, offset_minute: None, offset_second: None }
    }

    /// Create a new instance of `Parsed` with no information known.
    pub fn new() -> (r: Self)
        ensures
            r == Parsed::empty(),
    {
        Parsed { offset_hour: None, offset_minute: None, offset_second: None }
    }

    /// Parse a single literal, returning the remaining input on success.
    pub fn parse_literal<'a>(input: &'a [u8], literal: &[u8]) -> (r: Result<
        &'a [u8],
        ParseFromDescription,
    >)
        ensures
            starts_with_case(input@, literal@, true) ==> (r matches Ok(rest) && rest@ == input@.skip(
                literal@.len() as int,
            )),
            !starts_with_case(input@, literal@, true) ==> r == Err::<&[u8], ParseFromDescription>(
                ParseFromDescription::InvalidLiteral,
            ),
    {
        if starts_with(input, literal, true) {
            Ok(skip_prefix(input, literal.len()))
        } else {
            Err(ParseFromDescription::InvalidLiteral)
        }
    }

    /// Parse a single component, keeping its value when it belongs to the offset; the remaining
    /// input is returned on success.
    pub fn parse_component<'a>(&mut self, input: &'a [u8], component: Component) -> (r: Result<
        &'a [u8],
        ParseFromDescription,
    >)
        ensures
            match spec_component(input@, component) {
                Some((k, v)) => r matches Ok(rest) && rest@ == input@.skip(k as int) && *final(self)
                    == with_value(*old(self), component, v),
                None => r == Err::<&[u8], ParseFromDescription>(component_error(component))
                    && *final(self) == *old(self),
            },
    {
        match component {
            Component::Day(modifiers) => match parse_day(input, modifiers) {
                Some(item) => Ok(item.0),
                None => Err(ParseFromDescription::InvalidComponent("day")),
            },
            Component::Month(modifiers) => match parse_month(input, modifiers) {
                Some(item) => Ok(item.0),
                None => Err(ParseFromDescription::InvalidComponent("month")),
            },
            Component::Ordinal(modifiers) => match parse_ordinal(input, modifiers) {
                Some(item) => Ok(item.0),
                None => Err(ParseFromDescription::InvalidComponent("ordinal")),
            },
            Component::Weekday(modifiers) => match parse_weekday(input, modifiers) {
                Some(item) => Ok(item.0),
                None => Err(ParseFromDescription::InvalidComponent("weekday")),
            },
            Component::WeekNumber(modifiers) => match parse_two_digits(input, modifiers.padding) {
                Some(item) => Ok(item.0),
                None => Err(ParseFromDescription::InvalidComponent("week number")),
            },
            Component::Year(modifiers) => match parse_year(input, modifiers) {
                Some(item) => Ok(item.0),
                None => Err(ParseFromDescription::InvalidComponent("year")),
            },
            Component::Hour(modifiers) => match parse_two_digits(input, modifiers.padding) {
                Some(item) => if modifiers.is_12_hour_clock && item.1 == 0 {
                    Err(ParseFromDescription::InvalidComponent("hour"))
                } else {
                    Ok(item.0)
                },
                None => Err(ParseFromDescription::InvalidComponent("hour")),
            },
            Component::Minute(modifiers) => match parse_two_digits(input, modifiers.padding) {
                Some(item) => Ok(item.0),
                None => Err(ParseFromDescription::InvalidComponent("minute")),
            },
            Component::Period(modifiers) => match parse_period(input, modifiers) {
                Some(item) => Ok(item.0),
                None => Err(ParseFromDescription::InvalidComponent("period")),
            },
            Component::Second(modifiers) => match parse_two_digits(input, modifiers.padding) {
                Some(item) => Ok(item.0),
                None => Err(ParseFromDescription::InvalidComponent("second")),
            },
            Component::Subsecond(modifiers) => match parse_subsecond(input, modifiers) {
                Some(item) => Ok(item.0),
                None => Err(ParseFromDescription::InvalidComponent("subsecond")),
            },
            Component::OffsetHour(modifiers) => match parse_offset_hour(input, modifiers) {
                Some(item) => {
                    self.offset_hour = Some(item.1);
                    Ok(item.0)
                },
                None => Err(ParseFromDescription::InvalidComponent("offset hour")),
            },
            Component::OffsetMinute(modifiers) => match parse_two_digits(input, modifiers.padding) {
                Some(item) => {
                    self.offset_minute = Some(item.1);
                    Ok(item.0)
                },
                None => Err(ParseFromDescription::InvalidComponent("offset minute")),
            },
            Component::OffsetSecond(modifiers) => match parse_two_digits(input, modifiers.padding) {
                Some(item) => {
                    self.offset_second = Some(item.1);
                    Ok(item.0)
                },
                None => Err(ParseFromDescription::InvalidComponent("offset second")),
            },
        }
    }

    /// Parse a single item, returning the remaining input on success.
    pub fn parse_item<'a>(&mut self, input: &'a [u8], item: &FormatItem) -> (r: Result<
        &'a [u8],
        ParseFromDescription,
    >)
        ensures
            match *item {
                FormatItem::Literal(literal) => if starts_with_case(input@, literal@, true) {
                    r matches Ok(rest) && rest@ == input@.skip(literal@.len() as int) && *final(self)
                        == *old(self)
                } else {
                    r == Err::<&[u8], ParseFromDescription>(ParseFromDescription::InvalidLiteral)
                        && *final(self) == *old(self)
                },
                FormatItem::Component(component) => match spec_component(input@, component) {
                    Some((k, v)) => r matches Ok(rest) && rest@ == input@.skip(k as int)
                        && *final(self) == with_value(*old(self), component, v),
                    None => r == Err::<&[u8], ParseFromDescription>(component_error(component))
                        && *final(self) == *old(self),
                },
            },
    {
        match item {
            FormatItem::Literal(literal) => Self::parse_literal(input, literal),
            FormatItem::Component(component) => self.parse_component(input, *component),
        }
    }

    /// Parse a sequence of items, one after the other. The values found are kept only if every
    /// item parses; the remaining input is returned on success.
    pub fn parse_items<'a>(&mut self, input: &'a [u8], items: &[FormatItem]) -> (r: Result<
        &'a [u8],
        ParseFromDescription,
    >)
        ensures
            match items_parse(input@, items@, *old(self)) {
                Ok((rest, parsed)) => r matches Ok(left) && left@ == rest && *final(self) == parsed,
                Err(err) => r == Err::<&[u8], ParseFromDescription>(err) && *final(self) == *old(
                    self,
                ),
            },
    {
        // Work on a copy, which replaces the values found so far only if everything succeeds.
        let mut this = *self;
        let mut rest = input;
        let mut i: usize = 0;
        assert(items@.skip(0) =~= items@);
        while i < items.len()
            invariant
                0 <= i <= items@.len(),
                *self == *old(self),
                items_parse(input@, items@, *self) == items_parse(rest@, items@.skip(i as int), this),
            decreases items@.len() - i,
        {
            assert(items@.skip(i as int).drop_first() =~= items@.skip(i + 1));
            assert(items@.skip(i as int)[0] == items@[i as int]);
            rest = match this.parse_item(rest, &items[i]) {
                Ok(left) => left,
                Err(err) => return Err(err),
            };
            i = i + 1;
        }
        assert(items@.skip(i as int).len() == 0);
        *self = this;
        Ok(rest)
    }
}

} // verus!
