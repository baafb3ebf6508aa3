//! The [`UtcOffset`] struct: an offset from UTC of up to ±23:59:59.

use vstd::prelude::*;

use crate::arith::{abs, lemma_tdiv_pos, tdiv, trem};
use crate::error;
use crate::format_description::modifier::Padding;
use crate::format_description::{Component, FormatItem};
use crate::format_description::modifier;
use crate::formatting::{
    format_items, format_number, items_text, offset_component_abs, offset_hour_text,
    offset_minute_text, offset_second_text, padded,
};
use crate::parsing::component::{lemma_two_digits_read_back, spec_parse_offset_hour, two_digits};
use crate::parsing::leading_sign;
use crate::parsing::parsed::{items_parse, spec_component, with_value, Parsed};
use crate::text::{utf8_lossy, utf8_lossy_string};
use vstd::std_specs::convert::TryFromSpecImpl;
use vstd::string::StringSliceAdditionalSpecFns;
use vstd::std_specs::ops::NegSpec;

verus! {

/// Whether hours, minutes and seconds form an offset: each within its range, and all three of
/// one sign (a zero component goes with either sign).
pub open spec fn valid_hms(hours: int, minutes: int, seconds: int) -> bool {
    &&& -23 <= hours <= 23
    &&& -59 <= minutes <= 59
    &&& -59 <= seconds <= 59
    &&& hours > 0 ==> minutes >= 0 && seconds >= 0
    &&& hours < 0 ==> minutes <= 0 && seconds <= 0
    &&& minutes > 0 ==> seconds >= 0
    &&& minutes < 0 ==> seconds <= 0
}

/// The components that `UtcOffset::from_hms` stores for in-range arguments: a minutes component
/// whose sign disagrees with the hours is negated, and then a seconds component whose sign
/// disagrees with the hours or the minutes is negated.
pub open spec fn normalized_hms(hours: int, minutes: int, seconds: int) -> (int, int, int) {
    let minutes = if (hours > 0 && minutes < 0) || (hours < 0 && minutes > 0) {
        -minutes
    } else {
        minutes
    };
    let seconds = if (hours > 0 && seconds < 0) || (hours < 0 && seconds > 0) || (minutes > 0
        && seconds < 0) || (minutes < 0 && seconds > 0) {
        -seconds
    } else {
        seconds
    };
    (hours, minutes, seconds)
}

/// The total of an offset's components, in seconds.
pub open spec fn hms_seconds(hms: (i8, i8, i8)) -> int {
    hms.0 * 3_600 + hms.1 * 60 + hms.2
}

/// An offset from UTC.
///
/// This struct can store values up to ±23:59:59. Its model (`@`) is its hours, minutes and
/// seconds, which always have the same sign.
#[derive(Debug, Clone, Copy, PartialEq, Eq, Hash, PartialOrd, Ord)]
pub struct UtcOffset {
    hours: i8,
    minutes: i8,
    seconds: i8,
}

impl View for UtcOffset {
    type V = (i8, i8, i8);

    closed spec fn view(&self) -> (i8, i8, i8) {
        (self.hours, self.minutes, self.seconds)
    }
}

impl UtcOffset {
    /// The components are in range and of one sign.
    #[verifier::type_invariant]
    pub closed spec fn wf(self) -> bool {
        valid_hms(self.hours as int, self.minutes as int, self.seconds as int)
    }

    /// The offset with the given components.
    pub closed spec fn from_view(hms: (i8, i8, i8)) -> UtcOffset {
        UtcOffset { hours: hms.0, minutes: hms.1, seconds: hms.2 }
    }

    /// An offset is the offset of its components, and they are valid.
    pub proof fn lemma_from_offset(o: UtcOffset)
        requires
            o.wf(),
        ensures
            valid_hms(o@.0 as int, o@.1 as int, o@.2 as int),
            UtcOffset::from_view(o@) == o,
            UtcOffset::from_view(o@)@ == o@,
    {
    }

    /// Two offsets with the same components are the same offset.
    pub proof fn lemma_view_injective(a: UtcOffset, b: UtcOffset)
        requires
            a@ == b@,
        ensures
            a == b,
    {
    }

    /// A `UtcOffset` that is UTC.
    pub fn utc() -> (r: Self)
        ensures
            r@ == (0i8, 0i8, 0i8),
    {
        Self::__from_hms_unchecked(0, 0, 0)
    }

    /// Create a `UtcOffset` representing an offset of the hours, minutes, and seconds provided, the
    /// validity of which must be guaranteed by the caller. All three parameters must have the same
    /// sign.
    pub fn __from_hms_unchecked(hours: i8, minutes: i8, seconds: i8) -> (r: Self)
        requires
            valid_hms(hours as int, minutes as int, seconds as int),
        ensures
            r@ == (hours, minutes, seconds),
    {
        Self { hours, minutes, seconds }
    }

    /// Create a `UtcOffset` representing an offset by the number of hours, minutes, and seconds
    /// provided.
    ///
    /// The sign of all three components should match. If they do not, all smaller components will
    /// have their signs flipped.
    pub fn from_hms(hours: i8, minutes: i8, seconds: i8) -> (r: Result<Self, error::ComponentRange>)
        ensures
            !(-23 <= hours <= 23) ==> (r matches Err(e) && e@ == (
                "hours"@,
                -23int,
                23int,
                hours as int,
                false,
            )),
            -23 <= hours <= 23 && !(-59 <= minutes <= 59) ==> (r matches Err(e) && e@ == (
                "minutes"@,
                -59int,
                59int,
                minutes as int,
                false,
            )),
            -23 <= hours <= 23 && -59 <= minutes <= 59 && !(-59 <= seconds <= 59) ==> (
            r matches Err(e) && e@ == ("seconds"@, -59int, 59int, seconds as int, false)),
            -23 <= hours <= 23 && -59 <= minutes <= 59 && -59 <= seconds <= 59 ==> (
            r matches Ok(o) && (o@.0 as int, o@.1 as int, o@.2 as int) == normalized_hms(
                hours as int,
                minutes as int,
                seconds as int,
            )),
    {
        if hours < -23 || hours > 23 {
            return Err(error::ComponentRange::out_of_range("hours", -23, 23, hours as i64));
        }
        if minutes < -59 || minutes > 59 {
            return Err(error::ComponentRange::out_of_range("minutes", -59, 59, minutes as i64));
        }
        if seconds < -59 || seconds > 59 {
            return Err(error::ComponentRange::out_of_range("seconds", -59, 59, seconds as i64));
        }

        let mut minutes = minutes;
        let mut seconds = seconds;
        if (hours > 0 && minutes < 0) || (hours < 0 && minutes > 0) {
            minutes = -minutes;
        }
        if (hours > 0 && seconds < 0) || (hours < 0 && seconds > 0) || (minutes > 0 && seconds < 0)
            || (minutes < 0 && seconds > 0) {
            seconds = -seconds;
        }

        Ok(Self::__from_hms_unchecked(hours, minutes, seconds))
    }

    /// Create a `UtcOffset` representing an offset by the number of seconds provided.
    pub fn from_whole_seconds(seconds: i32) -> (r: Result<Self, error::ComponentRange>)
        ensures
            !(-86_399 <= seconds <= 86_399) ==> (r matches Err(e) && e@ == (
                "seconds"@,
                -86_399int,
                86_399int,
                seconds as int,
                false,
            )),
            -86_399 <= seconds <= 86_399 ==> (r matches Ok(o) && o@ == (
                tdiv(seconds as int, 3_600) as i8,
                trem(tdiv(seconds as int, 60), 60) as i8,
                trem(seconds as int, 60) as i8,
            ) && hms_seconds(o@) == seconds),
    {
        if seconds < -86_399 || seconds > 86_399 {
            return Err(error::ComponentRange::out_of_range("seconds", -86_399, 86_399, seconds as i64));
        }
        proof {
            lemma_tdiv_pos(seconds as int, 3_600);
            lemma_tdiv_pos(seconds as int, 60);
            lemma_tdiv_pos(tdiv(seconds as int, 60), 60);
            crate::arith::lemma_tdiv_nested(seconds as int, 60, 60);
        }
        Ok(Self::__from_hms_unchecked(
            (seconds / 3_600) as i8,
            ((seconds / 60) % 60) as i8,
            (seconds % 60) as i8,
        ))
    }

    /// Obtain the UTC offset as its hours, minutes, and seconds. The sign of all three components
    /// will always match. A positive value indicates an offset to the east; a negative to the west.
    pub fn as_hms(self) -> (r: (i8, i8, i8))
        ensures
            r == self@,
    {
        (self.hours, self.minutes, self.seconds)
    }

    /// Obtain the number of whole hours the offset is from UTC. A positive value indicates an
    /// offset to the east; a negative to the west.
    pub fn whole_hours(self) -> (r: i8)
        ensures
            r == self@.0,
    {
        self.hours
    }

    /// Obtain the number of whole minutes the offset is from UTC. A positive value indicates an
    /// offset to the east; a negative to the west.
    pub fn whole_minutes(self) -> (r: i16)
        ensures
            r == self@.0 * 60 + self@.1,
    {
        proof { use_type_invariant(&self); }
        self.hours as i16 * 60 + self.minutes as i16
    }

    /// Obtain the number of minutes past the hour the offset is from UTC. A positive value
    /// indicates an offset to the east; a negative to the west.
    pub fn minutes_past_hour(self) -> (r: i8)
        ensures
            r == self@.1,
    {
        self.minutes
    }

    /// Obtain the number of whole seconds the offset is from UTC. A positive value indicates an
    /// offset to the east; a negative to the west.
    pub fn whole_seconds(self) -> (r: i32)
        ensures
            r == hms_seconds(self@),
    {
        proof { use_type_invariant(&self); }
        self.hours as i32 * 3_600 + self.minutes as i32 * 60 + self.seconds as i32
    }

    /// Obtain the number of seconds past the minute the offset is from UTC. A positive value
    /// indicates an offset to the east; a negative to the west.
    pub fn seconds_past_minute(self) -> (r: i8)
        ensures
            r == self@.2,
    {
        self.seconds
    }

    /// Check if the offset is exactly UTC.
    pub fn is_utc(self) -> (r: bool)
        ensures
            r == (self@ == (0i8, 0i8, 0i8)),
    {
        self.hours == 0 && self.minutes == 0 && self.seconds == 0
    }

    /// Check if the offset is positive, or east of UTC.
    pub fn is_positive(self) -> (r: bool)
        ensures
            r == (hms_seconds(self@) > 0),
    {
        proof { use_type_invariant(&self); }
        self.hours > 0 || self.minutes > 0 || self.seconds > 0
    }

    /// Check if the offset is negative, or west of UTC.
    pub fn is_negative(self) -> (r: bool)
        ensures
            r == (hms_seconds(self@) < 0),
    {
        proof { use_type_invariant(&self); }
        self.hours < 0 || self.minutes < 0 || self.seconds < 0
    }
}

impl UtcOffset {
    /// Attempt to obtain the system's UTC offset at a known moment in time, given as seconds
    /// since the Unix epoch. If the offset cannot be determined, an error is returned.
    pub fn local_offset_at(unix_timestamp: i64) -> (r: Result<Self, error::IndeterminateOffset>)
        ensures
            r is Err,
    {
        match crate::sys::local_offset_at(unix_timestamp) {
            Some(offset) => Ok(offset),
            None => Err(error::IndeterminateOffset),
        }
    }

    /// Attempt to obtain the system's current UTC offset, given the current time in seconds
    /// since the Unix epoch. If the offset cannot be determined, an error is returned.
    pub fn current_local_offset(now_unix_timestamp: i64) -> (r: Result<Self, error::IndeterminateOffset>)
        ensures
            r is Err,
    {
        match crate::sys::local_offset_at(now_unix_timestamp) {
            Some(offset) => Ok(offset),
            None => Err(error::IndeterminateOffset),
        }
    }

    /// Format the `UtcOffset` into the output using the provided format description. An `Err`
    /// is returned at the first component that needs a date or a time; what came before it
    /// stays in the output.
    pub fn format_into(self, output: &mut Vec<u8>, format: &[FormatItem]) -> (r: Result<
        usize,
        error::Format,
    >)
        ensures
            final(output)@ == old(output)@ + items_text(format@, None, None, Some(self)).0,
            items_text(format@, None, None, Some(self)).1 ==> r == Ok::<usize, error::Format>(
                items_text(format@, None, None, Some(self)).0.len() as usize,
            ),
            !items_text(format@, None, None, Some(self)).1 ==> r == Err::<usize, error::Format>(
                error::Format::InsufficientTypeInformation,
            ),
    {
        format_items(output, format, None, None, Some(self))
    }

    /// Format the `UtcOffset` using the provided format description.
    pub fn format(self, format: &[FormatItem]) -> (r: Result<String, error::Format>)
        ensures
            items_text(format@, None, None, Some(self)).1 ==> (r matches Ok(s) && s@ == utf8_lossy(
                items_text(format@, None, None, Some(self)).0,
            )),
            !items_text(format@, None, None, Some(self)).1 ==> r == Err::<String, error::Format>(
                error::Format::InsufficientTypeInformation,
            ),
    {
        let mut buf: Vec<u8> = Vec::new();
        match format_items(&mut buf, format, None, None, Some(self)) {
            Ok(_) => {
                assert(buf@ =~= items_text(format@, None, None, Some(self)).0);
                Ok(utf8_lossy_string(buf.as_slice()))
            },
            Err(err) => Err(err),
        }
    }

    /// Parse a `UtcOffset` from the input using the provided format description.
    ///
    /// The items are read one after the other; the whole input must be read. The hours must
    /// have been found; the minutes and seconds count as zero when the description has none.
    pub fn parse(input: &str, description: &[FormatItem]) -> (r: Result<Self, error::Parse>)
        ensures
            r == parse_result(input.spec_bytes(), description@),
    {
        let mut parsed = Parsed::new();
        match parsed.parse_items(input.as_bytes(), description) {
            Ok(rest) => if rest.len() > 0 {
                return Err(error::Parse::UnexpectedTrailingCharacters);
            },
            Err(err) => return Err(error::Parse::ParseFromDescription(err)),
        }
        match Self::try_from(parsed) {
            Ok(offset) => Ok(offset),
            Err(err) => Err(error::Parse::TryFromParsed(err)),
        }
    }

    /// The text of the offset, as `+hh:mm:ss` or `-hh:mm:ss`: the sign (`-` west of UTC, `+`
    /// otherwise) and the hours, minutes and seconds, each without sign and of two digits.
    pub open spec fn display_bytes(hms: (i8, i8, i8)) -> Seq<u8> {
        let sign = if hms_seconds(hms) < 0 {
            45u8
        } else {
            43u8
        };
        seq![sign] + padded(abs(hms.0 as int) as nat, 2, Padding::Zero) + seq![58u8] + padded(
            abs(hms.1 as int) as nat,
            2,
            Padding::Zero,
        ) + seq![58u8] + padded(abs(hms.2 as int) as nat, 2, Padding::Zero)
    }

    /// The offset as text, such as `+01:02:03`.
    pub fn to_string(&self) -> (r: String)
        ensures
            r@ == utf8_lossy(Self::display_bytes(self@)),
    {
        proof { use_type_invariant(self); }
        let mut buf: Vec<u8> = Vec::new();
        if self.is_negative() {
            buf.push(45u8);
        } else {
            buf.push(43u8);
        }
        format_number::<2>(&mut buf, offset_component_abs(self.hours), Padding::Zero);
        buf.push(58u8);
        format_number::<2>(&mut buf, offset_component_abs(self.minutes), Padding::Zero);
        buf.push(58u8);
        format_number::<2>(&mut buf, offset_component_abs(self.seconds), Padding::Zero);
        assert(buf@ =~= Self::display_bytes(self@));
        utf8_lossy_string(buf.as_slice())
    }
}

/// The offset that parsed values make: `from_hms` of the hours and of the minutes and seconds
/// (zero when they were not found). A component out of range is reported under the offset's
/// name for it.
pub open spec fn offset_from_parsed(parsed: Parsed) -> Result<UtcOffset, error::TryFromParsed> {
    match parsed.offset_hour {
        None => Err(error::TryFromParsed::InsufficientInformation),
        Some(hours) => {
            let minutes = or_zero(parsed.offset_minute) as i8;
            let seconds = or_zero(parsed.offset_second) as i8;
            if !(-23 <= hours <= 23) {
                Err(error::TryFromParsed::ComponentRange(
                    error::ComponentRange::spec_out_of_range("offset hour", -23i64, 23i64, hours as i64),
                ))
            } else if !(-59 <= minutes <= 59) {
                Err(error::TryFromParsed::ComponentRange(
                    error::ComponentRange::spec_out_of_range("offset minute", -59i64, 59i64, minutes as i64),
                ))
            } else if !(-59 <= seconds <= 59) {
                Err(error::TryFromParsed::ComponentRange(
                    error::ComponentRange::spec_out_of_range("offset second", -59i64, 59i64, seconds as i64),
                ))
            } else {
                let (h, m, s) = normalized_hms(hours as int, minutes as int, seconds as int);
                Ok(UtcOffset::from_view((h as i8, m as i8, s as i8)))
            }
        },
    }
}

/// A value that was found, or zero.
pub open spec fn or_zero(value: Option<u8>) -> u8 {
    match value {
        Some(v) => v,
        None => 0,
    }
}

/// What `UtcOffset::parse` gives for the input and the items: the error of the first item that
/// does not match, an error if input is left over, or the offset that the values found make.
pub open spec fn parse_result(input: Seq<u8>, items: Seq<FormatItem>) -> Result<UtcOffset, error::Parse> {
    match items_parse(input, items, Parsed::empty()) {
        Err(err) => Err(error::Parse::ParseFromDescription(err)),
        Ok((rest, parsed)) => if rest.len() > 0 {
            Err(error::Parse::UnexpectedTrailingCharacters)
        } else {
            match offset_from_parsed(parsed) {
                Ok(offset) => Ok(offset),
                Err(err) => Err(error::Parse::TryFromParsed(err)),
            }
        },
    }
}

impl TryFrom<Parsed> for UtcOffset {
    type Error = error::TryFromParsed;

    /// The offset that the parsed values make.
    fn try_from(parsed: Parsed) -> (r: Result<Self, error::TryFromParsed>) {
        let hour = match parsed.offset_hour {
            Some(hour) => hour,
            None => return Err(error::TryFromParsed::InsufficientInformation),
        };
        let minute = match parsed.offset_minute {
            Some(minute) => minute,
            None => 0,
        };
        let second = match parsed.offset_second {
            Some(second) => second,
            None => 0,
        };
        let (minute, second) = (minute as i8, second as i8);
        match Self::from_hms(hour, minute, second) {
            Ok(offset) => {
                proof { UtcOffset::lemma_from_offset(offset); }
                Ok(offset)
            },
            Err(_) => {
                // Report the component under the offset's name for it.
                Err(error::TryFromParsed::ComponentRange(
                    if hour < -23 || hour > 23 {
                        error::ComponentRange::out_of_range("offset hour", -23, 23, hour as i64)
                    } else if minute < -59 || minute > 59 {
                        error::ComponentRange::out_of_range("offset minute", -59, 59, minute as i64)
                    } else {
                        error::ComponentRange::out_of_range("offset second", -59, 59, second as i64)
                    },
                ))
            },
        }
    }
}

impl TryFromSpecImpl<Parsed> for UtcOffset {
    open spec fn obeys_try_from_spec() -> bool {
        true
    }

    open spec fn try_from_spec(parsed: Parsed) -> Result<Self, error::TryFromParsed> {
        offset_from_parsed(parsed)
    }
}

// region: laws
/// `from_hms` keeps components that already form an offset exactly as they are.
pub proof fn lemma_from_hms_keeps_valid(hours: int, minutes: int, seconds: int)
    requires
        valid_hms(hours, minutes, seconds),
    ensures
        normalized_hms(hours, minutes, seconds) == (hours, minutes, seconds),
{
}

/// For in-range components, `from_hms` stores components of one sign with the magnitudes it
/// was given, and the sign of the hours (or, without hours, of the minutes) wins.
pub proof fn lemma_from_hms_normalizes(hours: int, minutes: int, seconds: int)
    requires
        -23 <= hours <= 23,
        -59 <= minutes <= 59,
        -59 <= seconds <= 59,
    ensures
        ({
            let (h, m, s) = normalized_hms(hours, minutes, seconds);
            &&& valid_hms(h, m, s)
            &&& h == hours
            &&& abs(m) == abs(minutes)
            &&& abs(s) == abs(seconds)
        }),
{
}

/// An offset is recovered from its total in seconds by `from_whole_seconds`.
pub proof fn lemma_whole_seconds_roundtrip(o: UtcOffset)
    requires
        o.wf(),
    ensures
        -86_399 <= hms_seconds(o@) <= 86_399,
        (
            tdiv(hms_seconds(o@), 3_600) as i8,
            trem(tdiv(hms_seconds(o@), 60), 60) as i8,
            trem(hms_seconds(o@), 60) as i8,
        ) == o@,
{
    let t = hms_seconds(o@);
    let h = o@.0 as int;
    let m = o@.1 as int;
    let sec = o@.2 as int;
    lemma_tdiv_pos(t, 60);
    lemma_tdiv_pos(t, 3_600);
    crate::arith::lemma_tdiv_unique(t, 60, h * 60 + m, sec);
    crate::arith::lemma_tdiv_unique(t, 3_600, h, m * 60 + sec);
    crate::arith::lemma_tdiv_unique(h * 60 + m, 60, h, m);
}

/// Negating an offset twice gives it back, and negation moves it to the other side of UTC.
pub proof fn lemma_neg_offset(o: UtcOffset)
    requires
        o.wf(),
    ensures
        valid_hms(-o@.0, -o@.1, -o@.2),
        <UtcOffset as NegSpec>::neg_spec(<UtcOffset as NegSpec>::neg_spec(o)) == o,
        hms_seconds(<UtcOffset as NegSpec>::neg_spec(o)@) == -hms_seconds(o@),
{
}
/// Whether a description holds only literals and the offset's components, each padded with
/// zeros or with spaces.
pub open spec fn offset_items(items: Seq<FormatItem>) -> bool {
    forall|i: int| 0 <= i < items.len() ==> offset_item(#[trigger] items[i])
}

/// Whether an item is a literal or an offset component padded with zeros or with spaces.
pub open spec fn offset_item(item: FormatItem) -> bool {
    match item {
        FormatItem::Literal(_) => true,
        FormatItem::Component(Component::OffsetHour(m)) => m.padding != Padding::Unpadded,
        FormatItem::Component(Component::OffsetMinute(m)) => m.padding != Padding::Unpadded,
        FormatItem::Component(Component::OffsetSecond(m)) => m.padding != Padding::Unpadded,
        _ => false,
    }
}

/// Whether a description shows the offset's hours.
pub open spec fn shows_hours(items: Seq<FormatItem>) -> bool {
    exists|i: int| 0 <= i < items.len() && is_offset_hour(#[trigger] items[i])
}

/// Whether a description shows the offset's minutes.
pub open spec fn shows_minutes(items: Seq<FormatItem>) -> bool {
    exists|i: int| 0 <= i < items.len() && is_offset_minute(#[trigger] items[i])
}

/// Whether a description shows the offset's seconds.
pub open spec fn shows_seconds(items: Seq<FormatItem>) -> bool {
    exists|i: int| 0 <= i < items.len() && is_offset_second(#[trigger] items[i])
}

/// Whether an item is the offset's hours.
pub open spec fn is_offset_hour(item: FormatItem) -> bool {
    item matches FormatItem::Component(Component::OffsetHour(_))
}

/// Whether an item is the offset's minutes.
pub open spec fn is_offset_minute(item: FormatItem) -> bool {
    item matches FormatItem::Component(Component::OffsetMinute(_))
}

/// Whether an item is the offset's seconds.
pub open spec fn is_offset_second(item: FormatItem) -> bool {
    item matches FormatItem::Component(Component::OffsetSecond(_))
}

/// The hours that formatting wrote, sign included, read back as the offset's hours, whatever
/// follows them.
proof fn lemma_offset_hour_read_back(o: UtcOffset, m: modifier::OffsetHour, tail: Seq<u8>)
    requires
        o.wf(),
        m.padding != Padding::Unpadded,
    ensures
        spec_parse_offset_hour(offset_hour_text(o, m) + tail, m) == Some(
            (offset_hour_text(o, m).len(), o@.0 as int),
        ),
{
    let v = abs(o@.0 as int) as nat;
    let digits = padded(v, 2, m.padding);
    lemma_two_digits_read_back(v, m.padding, tail);
    let text = offset_hour_text(o, m);
    let t = text + tail;
    if hms_seconds(o@) < 0 || m.sign_is_mandatory {
        let sign: u8 = if hms_seconds(o@) < 0 {
            45
        } else {
            43
        };
        assert(text =~= seq![sign] + digits);
        assert(t[0] == sign);
        assert(t.skip(1) =~= digits + tail);
    } else {
        assert(text =~= digits);
        assert(t[0] == digits[0]);
        assert(t.skip(0) =~= digits + tail);
    }
}

/// The values that reading a formatted description back finds: those of the offset for each of
/// its components that the description shows, and the earlier ones for the others.
pub open spec fn read_back_values(o: UtcOffset, items: Seq<FormatItem>, parsed: Parsed) -> Parsed {
    Parsed {
        offset_hour: if shows_hours(items) {
            Some(o@.0)
        } else {
            parsed.offset_hour
        },
        offset_minute: if shows_minutes(items) {
            Some(abs(o@.1 as int) as u8)
        } else {
            parsed.offset_minute
        },
        offset_second: if shows_seconds(items) {
            Some(abs(o@.2 as int) as u8)
        } else {
            parsed.offset_second
        },
    }
}

/// Whether a description shows a kind of offset component is whether its first item is one or
/// the rest of it shows one.
proof fn lemma_shows_split(items: Seq<FormatItem>)
    requires
        items.len() > 0,
    ensures
        shows_hours(items) == (is_offset_hour(items[0]) || shows_hours(items.drop_first())),
        shows_minutes(items) == (is_offset_minute(items[0]) || shows_minutes(items.drop_first())),
        shows_seconds(items) == (is_offset_second(items[0]) || shows_seconds(items.drop_first())),
{
    let rest = items.drop_first();
    if shows_hours(items) && !is_offset_hour(items[0]) {
        let i = choose|i: int| 0 <= i < items.len() && is_offset_hour(#[trigger] items[i]);
        assert(rest[i - 1] == items[i]);
    }
    if shows_hours(rest) {
        let i = choose|i: int| 0 <= i < rest.len() && is_offset_hour(#[trigger] rest[i]);
        assert(items[i + 1] == rest[i]);
    }
    if shows_minutes(items) && !is_offset_minute(items[0]) {
        let i = choose|i: int| 0 <= i < items.len() && is_offset_minute(#[trigger] items[i]);
        assert(rest[i - 1] == items[i]);
    }
    if shows_minutes(rest) {
        let i = choose|i: int| 0 <= i < rest.len() && is_offset_minute(#[trigger] rest[i]);
        assert(items[i + 1] == rest[i]);
    }
    if shows_seconds(items) && !is_offset_second(items[0]) {
        let i = choose|i: int| 0 <= i < items.len() && is_offset_second(#[trigger] items[i]);
        assert(rest[i - 1] == items[i]);
    }
    if shows_seconds(rest) {
        let i = choose|i: int| 0 <= i < rest.len() && is_offset_second(#[trigger] rest[i]);
        assert(items[i + 1] == rest[i]);
    }
}

/// The value that an offset component shows: the hours with their sign, the minutes and the
/// seconds without.
pub open spec fn shown_value(o: UtcOffset, component: Component) -> int {
    match component {
        Component::OffsetHour(_) => o@.0 as int,
        Component::OffsetMinute(_) => abs(o@.1 as int),
        Component::OffsetSecond(_) => abs(o@.2 as int),
        _ => 0,
    }
}

/// An offset component that formatting wrote, followed by any bytes, reads back the value it
/// shows.
proof fn lemma_component_read_back(o: UtcOffset, component: Component, tail: Seq<u8>)
    requires
        o.wf(),
        offset_item(FormatItem::Component(component)),
    ensures
        crate::formatting::component_text(component, None, None, Some(o)) matches Some(text)
            && spec_component(text + tail, component) == Some((text.len(), shown_value(o, component))),
{
    match component {
        Component::OffsetHour(m) => lemma_offset_hour_read_back(o, m, tail),
        Component::OffsetMinute(m) => lemma_two_digits_read_back(abs(o@.1 as int) as nat, m.padding, tail),
        Component::OffsetSecond(m) => lemma_two_digits_read_back(abs(o@.2 as int) as nat, m.padding, tail),
        _ => {},
    }
}

/// A description of literals and offset components, formatted for an offset and followed by any
/// bytes, parses back item by item: each component reads back the value it showed, and what
/// follows is left.
#[verifier::spinoff_prover]
#[verifier::rlimit(40)]
proof fn lemma_items_read_back(o: UtcOffset, items: Seq<FormatItem>, tail: Seq<u8>, parsed: Parsed)
    requires
        o.wf(),
        offset_items(items),
    ensures
        items_text(items, None, None, Some(o)).1,
        items_parse(items_text(items, None, None, Some(o)).0 + tail, items, parsed) == Ok::<
            (Seq<u8>, Parsed),
            crate::error::ParseFromDescription,
        >((tail, read_back_values(o, items, parsed))),
    decreases items.len(),
{
    if items.len() == 0 {
        assert(Seq::<u8>::empty() + tail =~= tail);
    } else {
        let rest = items.drop_first();
        assert(offset_item(items[0]));
        assert forall|i: int| 0 <= i < rest.len() implies offset_item(#[trigger] rest[i]) by {
            assert(rest[i] == items[i + 1]);
        }
        lemma_shows_split(items);
        let rest_text = items_text(rest, None, None, Some(o)).0;
        match items[0] {
            FormatItem::Literal(literal) => {
                lemma_items_read_back(o, rest, tail, parsed);
                assert(literal@ + rest_text + tail =~= literal@ + (rest_text + tail));
                assert((literal@ + (rest_text + tail)).skip(literal@.len() as int) =~= rest_text
                    + tail);
            },
            FormatItem::Component(component) => {
                lemma_component_read_back(o, component, rest_text + tail);
                let text = crate::formatting::component_text(component, None, None, Some(o)).unwrap();
                assert(text + rest_text + tail =~= text + (rest_text + tail));
                assert((text + (rest_text + tail)).skip(text.len() as int) =~= rest_text + tail);
                let next = with_value(parsed, component, shown_value(o, component));
                lemma_items_read_back(o, rest, tail, next);
                assert(read_back_values(o, rest, next) == read_back_values(o, items, parsed));
            },
        }
    }
}

/// Parsing reads back the offset that formatting wrote, for a description of literals and
/// offset components padded with zeros or with spaces that shows the hours, and the minutes and
/// the seconds where the offset has them. An offset less than an hour west of UTC is the one
/// exception: its hours show no sign of their own, so it reads back east of UTC.
pub proof fn lemma_parse_reads_format(o: UtcOffset, items: Seq<FormatItem>)
    requires
        o.wf(),
        offset_items(items),
        shows_hours(items),
        o@.1 != 0 ==> shows_minutes(items),
        o@.2 != 0 ==> shows_seconds(items),
        o@.0 != 0 || hms_seconds(o@) >= 0,
    ensures
        items_text(items, None, None, Some(o)).1,
        parse_result(items_text(items, None, None, Some(o)).0, items) == Ok::<
            UtcOffset,
            error::Parse,
        >(o),
{
    let text = items_text(items, None, None, Some(o)).0;
    lemma_items_read_back(o, items, Seq::empty(), Parsed::empty());
    assert(text + Seq::<u8>::empty() =~= text);
    UtcOffset::lemma_from_offset(o);
}
// endregion laws

impl core::ops::Neg for UtcOffset {
    type Output = Self;

    /// The offset of the same size on the other side of UTC.
    fn neg(self) -> (r: Self) {
        proof { use_type_invariant(&self); }
        Self::__from_hms_unchecked(-self.hours, -self.minutes, -self.seconds)
    }
}

impl vstd::std_specs::ops::NegSpecImpl for UtcOffset {
    open spec fn obeys_neg_spec() -> bool {
        true
    }

    open spec fn neg_req(self) -> bool {
        true
    }

    open spec fn neg_spec(self) -> Self {
        UtcOffset::from_view(((-self@.0) as i8, (-self@.1) as i8, (-self@.2) as i8))
    }
}

} // verus!
