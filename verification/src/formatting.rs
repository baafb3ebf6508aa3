//! Formatting of the components of a format description to bytes.

use vstd::prelude::*;

use crate::error;
use crate::format_description::modifier;
use crate::format_description::{Component, FormatItem};
use crate::arith::{abs, trem};
use crate::text::{decimal_digits, itoa_decimal};
use crate::utc_offset::{hms_seconds, UtcOffset};

verus! {

// region: names
/// The English name of a month (1 is January), as ASCII bytes.
pub open spec fn month_name(month: int) -> Seq<u8> {
    if month == 1 {
        seq![74u8, 97, 110, 117, 97, 114, 121]  // "January"
    } else if month == 2 {
        seq![70u8, 101, 98, 114, 117, 97, 114, 121]  // "February"
    } else if month == 3 {
        seq![77u8, 97, 114, 99, 104]  // "March"
    } else if month == 4 {
        seq![65u8, 112, 114, 105, 108]  // "April"
    } else if month == 5 {
        seq![77u8, 97, 121]  // "May"
    } else if month == 6 {
        seq![74u8, 117, 110, 101]  // "June"
    } else if month == 7 {
        seq![74u8, 117, 108, 121]  // "July"
    } else if month == 8 {
        seq![65u8, 117, 103, 117, 115, 116]  // "August"
    } else if month == 9 {
        seq![83u8, 101, 112, 116, 101, 109, 98, 101, 114]  // "September"
    } else if month == 10 {
        seq![79u8, 99, 116, 111, 98, 101, 114]  // "October"
    } else if month == 11 {
        seq![78u8, 111, 118, 101, 109, 98, 101, 114]  // "November"
    } else {
        seq![68u8, 101, 99, 101, 109, 98, 101, 114]  // "December"
    }
}

/// The English name of a weekday (0 is Monday), as ASCII bytes.
pub open spec fn weekday_name(days_from_monday: int) -> Seq<u8> {
    if days_from_monday == 0 {
        seq![77u8, 111, 110, 100, 97, 121]  // "Monday"
    } else if days_from_monday == 1 {
        seq![84u8, 117, 101, 115, 100, 97, 121]  // "Tuesday"
    } else if days_from_monday == 2 {
        seq![87u8, 101, 100, 110, 101, 115, 100, 97, 121]  // "Wednesday"
    } else if days_from_monday == 3 {
        seq![84u8, 104, 117, 114, 115, 100, 97, 121]  // "Thursday"
    } else if days_from_monday == 4 {
        seq![70u8, 114, 105, 100, 97, 121]  // "Friday"
    } else if days_from_monday == 5 {
        seq![83u8, 97, 116, 117, 114, 100, 97, 121]  // "Saturday"
    } else {
        seq![83u8, 117, 110, 100, 97, 121]  // "Sunday"
    }
}

/// The name of a month (1 is January).
pub(crate) fn month_name_bytes(month: u8) -> (r: &'static [u8])
    requires
        1 <= month <= 12,
    ensures
        r@ == month_name(month as int),
{
    match month {
        1 => &[74u8, 97, 110, 117, 97, 114, 121],
        2 => &[70u8, 101, 98, 114, 117, 97, 114, 121],
        3 => &[77u8, 97, 114, 99, 104],
        4 => &[65u8, 112, 114, 105, 108],
        5 => &[77u8, 97, 121],
        6 => &[74u8, 117, 110, 101],
        7 => &[74u8, 117, 108, 121],
        8 => &[65u8, 117, 103, 117, 115, 116],
        9 => &[83u8, 101, 112, 116, 101, 109, 98, 101, 114],
        10 => &[79u8, 99, 116, 111, 98, 101, 114],
        11 => &[78u8, 111, 118, 101, 109, 98, 101, 114],
        _ => &[68u8, 101, 99, 101, 109, 98, 101, 114],
    }
}

/// The name of a weekday (0 is Monday).
pub(crate) fn weekday_name_bytes(days_from_monday: u8) -> (r: &'static [u8])
    requires
        days_from_monday <= 6,
    ensures
        r@ == weekday_name(days_from_monday as int),
{
    match days_from_monday {
        0 => &[77u8, 111, 110, 100, 97, 121],
        1 => &[84u8, 117, 101, 115, 100, 97, 121],
        2 => &[87u8, 101, 100, 110, 101, 115, 100, 97, 121],
        3 => &[84u8, 104, 117, 114, 115, 100, 97, 121],
        4 => &[70u8, 114, 105, 100, 97, 121],
        5 => &[83u8, 97, 116, 117, 114, 100, 97, 121],
        _ => &[83u8, 117, 110, 100, 97, 121],
    }
}
// endregion names

// region: digit count
/// The number of decimal digits of `n`, for `n` below ten billion.
pub open spec fn digit_count(n: nat) -> nat {
    if n < 10 {
        1
    } else if n < 100 {
        2
    } else if n < 1_000 {
        3
    } else if n < 10_000 {
        4
    } else if n < 100_000 {
        5
    } else if n < 1_000_000 {
        6
    } else if n < 10_000_000 {
        7
    } else if n < 100_000_000 {
        8
    } else if n < 1_000_000_000 {
        9
    } else {
        10
    }
}

/// The decimal text of `n` is `digit_count(n)` digits long.
pub proof fn lemma_decimal_digits_len(n: nat)
    requires
        n < 10_000_000_000,
    ensures
        decimal_digits(n).len() == digit_count(n),
    decreases n,
{
    if n >= 10 {
        lemma_decimal_digits_len(n / 10);
    }
}

/// A type whose values have a known formatted width.
///
/// Note that this should not be implemented for any signed integers. This forces the caller to
/// write the sign if desired.
pub trait DigitCount {
    /// The value as a natural number.
    spec fn digit_value(self) -> nat;

    /// The number of digits in the stringified value.
    fn num_digits(self) -> (r: u8)
        ensures
            r == decimal_digits(self.digit_value()).len(),
    ;
}

impl DigitCount for u8 {
    open spec fn digit_value(self) -> nat {
        self as nat
    }

    fn num_digits(self) -> (r: u8) {
        proof { lemma_decimal_digits_len(self as nat); }
        if self < 10 {
            1
        } else if self < 100 {
            2
        } else {
            3
        }
    }
}

impl DigitCount for u16 {
    open spec fn digit_value(self) -> nat {
        self as nat
    }

    fn num_digits(self) -> (r: u8) {
        proof { lemma_decimal_digits_len(self as nat); }
        if self < 10 {
            1
        } else if self < 100 {
            2
        } else if self < 1_000 {
            3
        } else if self < 10_000 {
            4
        } else {
            5
        }
    }
}

/// A value whose highest set bit is bit `j` lies between `2^j` (inclusive) and `2^(j+1)`.
proof fn lemma_highest_bit_bounds(v: u32, j: u32)
    requires
        j < 32,
        (v >> j) & 1u32 != 0u32,
        v >> (j + 1) == 0u32,
    ensures
        (1u64 << (j as u64)) <= v as u64,
        (v as u64) < (1u64 << ((j + 1) as u64)),
{
    assert((1u64 << (j as u64)) <= v as u64 && (v as u64) < (1u64 << ((j + 1) as u64)))
        by (bit_vector)
        requires
            j < 32,
            (v >> j) & 1u32 != 0u32,
            v >> (j + 1) == 0u32,
    ;
}

impl DigitCount for u32 {
    open spec fn digit_value(self) -> nat {
        self as nat
    }

    fn num_digits(self) -> (r: u8) {
        // Lookup table: the entry for values whose highest set bit is bit `j` holds, in its
        // upper half, the fewest digits such a value can have, and in its lower half `2^32`
        // minus the power of ten (if any) at which one more digit is needed.
        let table: [u64; 32] = [
            0x0001_0000_0000,
            0x0001_0000_0000,
            0x0001_0000_0000,
            0x0001_FFFF_FFF6,
            0x0002_0000_0000,
            0x0002_0000_0000,
            0x0002_FFFF_FF9C,
            0x0003_0000_0000,
            0x0003_0000_0000,
            0x0003_FFFF_FC18,
            0x0004_0000_0000,
            0x0004_0000_0000,
            0x0004_0000_0000,
            0x0004_FFFF_D8F0,
            0x0005_0000_0000,
            0x0005_0000_0000,
            0x0005_FFFE_7960,
            0x0006_0000_0000,
            0x0006_0000_0000,
            0x0006_FFF0_BDC0,
            0x0007_0000_0000,
            0x0007_0000_0000,
            0x0007_0000_0000,
            0x0007_FF67_6980,
            0x0008_0000_0000,
            0x0008_0000_0000,
            0x0008_FA0A_1F00,
            0x0009_0000_0000,
            0x0009_0000_0000,
            0x0009_C465_3600,
            0x000A_0000_0000,
            0x000A_0000_0000,
        ];
        let lz = self.leading_zeros();
        let index = 31u32.saturating_sub(lz);
        proof {
            lemma_decimal_digits_len(self as nat);
            vstd::std_specs::bits::axiom_u32_leading_zeros(self);
            vstd::arithmetic::power2::lemma2_to64();
            if self != 0 {
                lemma_highest_bit_bounds(self, index);
                vstd::bits::lemma_u64_shl_is_mul(1, index as u64);
                vstd::bits::lemma_u64_shl_is_mul(1, (index + 1) as u64);
            }
        }
        let sum = self as u64 + table[index as usize];
        proof {
            vstd::bits::lemma_u64_shr_is_div(sum, 32);
            let p = vstd::arithmetic::power2::pow2(index as nat);
            assert(sum >> 32u64 == digit_count(self as nat)) by {
                if index == 0 {} else if index == 1 {} else if index == 2 {} else if index == 3 {}
                else if index == 4 {} else if index == 5 {} else if index == 6 {}
                else if index == 7 {} else if index == 8 {} else if index == 9 {}
                else if index == 10 {} else if index == 11 {} else if index == 12 {}
                else if index == 13 {} else if index == 14 {} else if index == 15 {}
                else if index == 16 {} else if index == 17 {} else if index == 18 {}
                else if index == 19 {} else if index == 20 {} else if index == 21 {}
                else if index == 22 {} else if index == 23 {} else if index == 24 {}
                else if index == 25 {} else if index == 26 {} else if index == 27 {}
                else if index == 28 {} else if index == 29 {} else if index == 30 {}
                else {}
            }
        }
        (sum >> 32) as u8
    }
}
// endregion digit count

// region: numbers
/// Append all bytes to the output, returning the number of bytes written.
pub fn write(output: &mut Vec<u8>, bytes: &[u8]) -> (r: usize)
    ensures
        final(output)@ == old(output)@ + bytes@,
        r == bytes@.len(),
{
    let mut i: usize = 0;
    while i < bytes.len()
        invariant
            0 <= i <= bytes@.len(),
            output@ == old(output)@ + bytes@.subrange(0, i as int),
        decreases bytes@.len() - i,
    {
        output.push(bytes[i]);
        i = i + 1;
        assert(bytes@.subrange(0, i as int) == bytes@.subrange(0, i - 1) + seq![bytes@[i - 1]]);
    }
    assert(bytes@.subrange(0, bytes@.len() as int) == bytes@);
    bytes.len()
}

/// `count` copies of the byte `b`.
pub open spec fn repeat(b: u8, count: nat) -> Seq<u8> {
    Seq::new(count, |_i: int| b)
}

/// The decimal text of `value`, padded on the left to `width` bytes as `padding` says: with
/// spaces, with zeros, or not at all. Text already as wide as `width` is left as it is.
pub open spec fn padded(value: nat, width: nat, padding: modifier::Padding) -> Seq<u8> {
    let digits = decimal_digits(value);
    let fill: nat = if width > digits.len() {
        (width - digits.len()) as nat
    } else {
        0
    };
    match padding {
        modifier::Padding::Space => repeat(32u8, fill) + digits,
        modifier::Padding::Zero => repeat(48u8, fill) + digits,
        modifier::Padding::Unpadded => digits,
    }
}

/// Padding with spaces or zeros makes the text exactly as wide as the width, or leaves it as
/// it is when it is already wider; without padding the text is the bare digits.
pub proof fn lemma_padded_len(value: nat, width: nat, padding: modifier::Padding)
    ensures
        padding != modifier::Padding::Unpadded ==> padded(value, width, padding).len() == if width
            > decimal_digits(value).len() {
            width
        } else {
            decimal_digits(value).len()
        },
        padding == modifier::Padding::Unpadded ==> padded(value, width, padding) == decimal_digits(
            value,
        ),
{
}

/// Append `count` copies of `b` and then the decimal text of `value`.
fn write_filled(output: &mut Vec<u8>, fill_byte: u8, count: u8, value: u32) -> (r: usize)
    ensures
        final(output)@ == old(output)@ + repeat(fill_byte, count as nat) + decimal_digits(value as nat),
        r == count + decimal_digits(value as nat).len(),
{
    let mut bytes: usize = 0;
    let mut i: u8 = 0;
    while i < count
        invariant
            0 <= i <= count,
            bytes == i,
            output@ == old(output)@ + repeat(fill_byte, i as nat),
        decreases count - i,
    {
        bytes += write(output, &[fill_byte]);
        i = i + 1;
        assert(repeat(fill_byte, i as nat) == repeat(fill_byte, (i - 1) as nat) + seq![fill_byte]);
    }
    let digits = itoa_decimal(value as i128);
    proof { lemma_decimal_digits_len(value as nat); }
    bytes += write(output, digits.as_slice());
    bytes
}

/// Format a number with the provided padding and width.
///
/// The sign must be written by the caller.
pub fn format_number<const WIDTH: u8>(output: &mut Vec<u8>, value: u32, padding: modifier::Padding) -> (r: usize)
    ensures
        final(output)@ == old(output)@ + padded(value as nat, WIDTH as nat, padding),
        r == padded(value as nat, WIDTH as nat, padding).len(),
        r <= WIDTH + 10,
{
    proof { lemma_decimal_digits_len(value as nat); }
    match padding {
        modifier::Padding::Space => format_number_pad_space::<WIDTH>(output, value),
        modifier::Padding::Zero => format_number_pad_zero::<WIDTH>(output, value),
        modifier::Padding::Unpadded => {
            let digits = itoa_decimal(value as i128);
            write(output, digits.as_slice())
        },
    }
}

/// Format a number with the provided width and spaces as padding.
///
/// The sign must be written by the caller.
pub fn format_number_pad_space<const WIDTH: u8>(output: &mut Vec<u8>, value: u32) -> (r: usize)
    ensures
        final(output)@ == old(output)@ + padded(value as nat, WIDTH as nat, modifier::Padding::Space),
        r == padded(value as nat, WIDTH as nat, modifier::Padding::Space).len(),
        r <= WIDTH + 10,
{
    proof { lemma_decimal_digits_len(value as nat); }
    let fill = WIDTH.saturating_sub(value.num_digits());
    write_filled(output, 32u8, fill, value)
}

/// Format a number with the provided width and zeros as padding.
///
/// The sign must be written by the caller.
pub fn format_number_pad_zero<const WIDTH: u8>(output: &mut Vec<u8>, value: u32) -> (r: usize)
    ensures
        final(output)@ == old(output)@ + padded(value as nat, WIDTH as nat, modifier::Padding::Zero),
        r == padded(value as nat, WIDTH as nat, modifier::Padding::Zero).len(),
        r <= WIDTH + 10,
{
    proof { lemma_decimal_digits_len(value as nat); }
    let fill = WIDTH.saturating_sub(value.num_digits());
    write_filled(output, 48u8, fill, value)
}
// endregion numbers

// region: values read
/// The calendar values of a date that formatting reads.
#[derive(Debug, Clone, Copy, PartialEq, Eq)]
pub struct DateFields {
    /// The year of the Gregorian calendar.
    pub year: i32,
    /// The month, from 1 (January) to 12 (December).
    pub month: u8,
    /// The day of the month.
    pub day: u8,
    /// The day of the year.
    pub ordinal: u16,
    /// The day of the week, counted from Monday (0) to Sunday (6).
    pub weekday: u8,
    /// The year that the ISO week belongs to.
    pub iso_year: i32,
    /// The ISO week number.
    pub iso_week: u8,
    /// The week number, where week 1 begins on the first Sunday of the year.
    pub sunday_based_week: u8,
    /// The week number, where week 1 begins on the first Monday of the year.
    pub monday_based_week: u8,
}

impl DateFields {
    /// The month and the weekday lie in their ranges.
    pub open spec fn valid(self) -> bool {
        1 <= self.month <= 12 && self.weekday <= 6
    }
}

/// The clock values of a time that formatting reads.
#[derive(Debug, Clone, Copy, PartialEq, Eq)]
pub struct TimeFields {
    /// The hour of the day, from 0 to 23.
    pub hour: u8,
    /// The minute within the hour.
    pub minute: u8,
    /// The second within the minute.
    pub second: u8,
    /// The nanosecond within the second.
    pub nanosecond: u32,
}
// endregion values read

// region: texts
/// The text of the day of the month.
pub open spec fn day_text(date: DateFields, m: modifier::Day) -> Seq<u8> {
    padded(date.day as nat, 2, m.padding)
}

/// The text of the month: its number, or its name in full, or the first three letters of it.
pub open spec fn month_text(date: DateFields, m: modifier::Month) -> Seq<u8> {
    match m.repr {
        modifier::MonthRepr::Numerical => padded(date.month as nat, 2, m.padding),
        modifier::MonthRepr::Long => month_name(date.month as int),
        modifier::MonthRepr::Short => month_name(date.month as int).subrange(0, 3),
    }
}

/// The text of the day of the year.
pub open spec fn ordinal_text(date: DateFields, m: modifier::Ordinal) -> Seq<u8> {
    padded(date.ordinal as nat, 3, m.padding)
}

/// The text of the weekday: its name, the first three letters of it, or its number counted
/// from Sunday or from Monday, from zero or from one.
pub open spec fn weekday_text(date: DateFields, m: modifier::Weekday) -> Seq<u8> {
    let one: nat = if m.one_indexed {
        1
    } else {
        0
    };
    match m.repr {
        modifier::WeekdayRepr::Short => weekday_name(date.weekday as int).subrange(0, 3),
        modifier::WeekdayRepr::Long => weekday_name(date.weekday as int),
        modifier::WeekdayRepr::Sunday => decimal_digits(((date.weekday + 1) % 7) as nat + one),
        modifier::WeekdayRepr::Monday => decimal_digits(date.weekday as nat + one),
    }
}

/// The text of the week number, counted as the modifier says.
pub open spec fn week_number_text(date: DateFields, m: modifier::WeekNumber) -> Seq<u8> {
    let week = match m.repr {
        modifier::WeekNumberRepr::Iso => date.iso_week,
        modifier::WeekNumberRepr::Sunday => date.sunday_based_week,
        modifier::WeekNumberRepr::Monday => date.monday_based_week,
    };
    padded(week as nat, 2, m.padding)
}

/// The text of the year: of the calendar year or of the ISO week's year, in full with at
/// least four digits and a sign when negative or when the sign is mandatory, or only its last
/// two digits.
pub open spec fn year_text(date: DateFields, m: modifier::Year) -> Seq<u8> {
    let full_year: int = if m.iso_week_based {
        date.iso_year as int
    } else {
        date.year as int
    };
    match m.repr {
        modifier::YearRepr::Full => {
            let sign = if full_year < 0 {
                seq![45u8]
            } else if m.sign_is_mandatory {
                seq![43u8]
            } else {
                Seq::empty()
            };
            sign + padded(abs(full_year) as nat, 4, m.padding)
        },
        modifier::YearRepr::LastTwo => padded(abs(trem(full_year, 100)) as nat, 2, m.padding),
    }
}

/// The text of the hour, on the 24-hour clock or on the 12-hour clock (where hours 0 and 12
/// are both 12).
pub open spec fn hour_text(time: TimeFields, m: modifier::Hour) -> Seq<u8> {
    let hour = time.hour as nat;
    let value: nat = if !m.is_12_hour_clock {
        hour
    } else if hour == 0 || hour == 12 {
        12
    } else if hour < 12 {
        hour
    } else {
        (hour - 12) as nat
    };
    padded(value, 2, m.padding)
}

/// The text of the minute.
pub open spec fn minute_text(time: TimeFields, m: modifier::Minute) -> Seq<u8> {
    padded(time.minute as nat, 2, m.padding)
}

/// The text of the period: `am`, `AM`, `pm` or `PM`.
pub open spec fn period_text(time: TimeFields, m: modifier::Period) -> Seq<u8> {
    if time.hour < 12 {
        if m.is_uppercase {
            seq![65u8, 77u8]
        } else {
            seq![97u8, 109u8]
        }
    } else {
        if m.is_uppercase {
            seq![80u8, 77u8]
        } else {
            seq![112u8, 109u8]
        }
    }
}

/// The text of the second.
pub open spec fn second_text(time: TimeFields, m: modifier::Second) -> Seq<u8> {
    padded(time.second as nat, 2, m.padding)
}

/// Ten to the power `k`.
pub open spec fn pow10(k: nat) -> nat
    decreases k,
{
    if k == 0 {
        1
    } else {
        10 * pow10((k - 1) as nat)
    }
}

/// How many digits of the nanoseconds a subsecond shows: the number the modifier asks for, or,
/// for `OneOrMore`, as many as reach the last nonzero digit (at least one).
pub open spec fn subsecond_width(nanos: nat, digits: modifier::SubsecondDigits) -> nat {
    if digits == modifier::SubsecondDigits::Nine || (digits == modifier::SubsecondDigits::OneOrMore && nanos % 10 != 0) {
        9
    } else if digits == modifier::SubsecondDigits::Eight || (digits == modifier::SubsecondDigits::OneOrMore && (nanos / 10) % 10 != 0) {
        8
    } else if digits == modifier::SubsecondDigits::Seven || (digits == modifier::SubsecondDigits::OneOrMore && (nanos / 100) % 10 != 0) {
        7
    } else if digits == modifier::SubsecondDigits::Six || (digits == modifier::SubsecondDigits::OneOrMore && (nanos / 1_000) % 10 != 0) {
        6
    } else if digits == modifier::SubsecondDigits::Five || (digits == modifier::SubsecondDigits::OneOrMore && (nanos / 10_000) % 10 != 0) {
        5
    } else if digits == modifier::SubsecondDigits::Four || (digits == modifier::SubsecondDigits::OneOrMore && (nanos / 100_000) % 10 != 0) {
        4
    } else if digits == modifier::SubsecondDigits::Three || (digits == modifier::SubsecondDigits::OneOrMore && (nanos / 1_000_000) % 10 != 0) {
        3
    } else if digits == modifier::SubsecondDigits::Two || (digits == modifier::SubsecondDigits::OneOrMore && (nanos / 10_000_000) % 10 != 0) {
        2
    } else {
        1
    }
}

/// The text of the subsecond: the leading `subsecond_width` digits of the nanoseconds written
/// as nine digits.
pub open spec fn subsecond_text(time: TimeFields, m: modifier::Subsecond) -> Seq<u8> {
    let width = subsecond_width(time.nanosecond as nat, m.digits);
    padded(
        time.nanosecond as nat / pow10((9 - width) as nat),
        width,
        modifier::Padding::Zero,
    )
}

/// The text of the offset's hours: a `-` west of UTC, a `+` elsewhere when the sign is
/// mandatory, and the number of hours.
pub open spec fn offset_hour_text(offset: UtcOffset, m: modifier::OffsetHour) -> Seq<u8> {
    let sign = if hms_seconds(offset@) < 0 {
        seq![45u8]
    } else if m.sign_is_mandatory {
        seq![43u8]
    } else {
        Seq::empty()
    };
    sign + padded(abs(offset@.0 as int) as nat, 2, m.padding)
}

/// The text of the offset's minutes past the hour, without sign.
pub open spec fn offset_minute_text(offset: UtcOffset, m: modifier::OffsetMinute) -> Seq<u8> {
    padded(abs(offset@.1 as int) as nat, 2, m.padding)
}

/// The text of the offset's seconds past the minute, without sign.
pub open spec fn offset_second_text(offset: UtcOffset, m: modifier::OffsetSecond) -> Seq<u8> {
    padded(abs(offset@.2 as int) as nat, 2, m.padding)
}

/// The text of a component, or `None` when the values it needs are not given.
pub open spec fn component_text(
    component: Component,
    date: Option<DateFields>,
    time: Option<TimeFields>,
    offset: Option<UtcOffset>,
) -> Option<Seq<u8>> {
    match component {
        Component::Day(m) => match date {
            Some(d) => Some(day_text(d, m)),
            None => None,
        },
        Component::Month(m) => match date {
            Some(d) => Some(month_text(d, m)),
            None => None,
        },
        Component::Ordinal(m) => match date {
            Some(d) => Some(ordinal_text(d, m)),
            None => None,
        },
        Component::Weekday(m) => match date {
            Some(d) => Some(weekday_text(d, m)),
            None => None,
        },
        Component::WeekNumber(m) => match date {
            Some(d) => Some(week_number_text(d, m)),
            None => None,
        },
        Component::Year(m) => match date {
            Some(d) => Some(year_text(d, m)),
            None => None,
        },
        Component::Hour(m) => match time {
            Some(t) => Some(hour_text(t, m)),
            None => None,
        },
        Component::Minute(m) => match time {
            Some(t) => Some(minute_text(t, m)),
            None => None,
        },
        Component::Period(m) => match time {
            Some(t) => Some(period_text(t, m)),
            None => None,
        },
        Component::Second(m) => match time {
            Some(t) => Some(second_text(t, m)),
            None => None,
        },
        Component::Subsecond(m) => match time {
            Some(t) => Some(subsecond_text(t, m)),
            None => None,
        },
        Component::OffsetHour(m) => match offset {
            Some(o) => Some(offset_hour_text(o, m)),
            None => None,
        },
        Component::OffsetMinute(m) => match offset {
            Some(o) => Some(offset_minute_text(o, m)),
            None => None,
        },
        Component::OffsetSecond(m) => match offset {
            Some(o) => Some(offset_second_text(o, m)),
            None => None,
        },
    }
}
// endregion texts

// region: component formatters
/// Format the provided component into the designated output. An `Err` will be returned if the
/// component requires information that it does not provide; the output is then left as it was.
pub fn format_component(
    output: &mut Vec<u8>,
    component: Component,
    date: Option<DateFields>,
    time: Option<TimeFields>,
    offset: Option<UtcOffset>,
) -> (r: Result<usize, error::Format>)
    requires
        date matches Some(d) ==> d.valid(),
    ensures
        component_text(component, date, time, offset) matches Some(text) ==> final(output)@ == old(
            output,
        )@ + text && r == Ok::<usize, error::Format>(text.len() as usize),
        component_text(component, date, time, offset) is None ==> final(output)@ == old(output)@
            && r == Err::<usize, error::Format>(error::Format::InsufficientTypeInformation),
{
    match (component, date, time, offset) {
        (Component::Day(modifier), Some(date), _, _) => Ok(fmt_day(output, date, modifier)),
        (Component::Month(modifier), Some(date), _, _) => Ok(fmt_month(output, date, modifier)),
        (Component::Ordinal(modifier), Some(date), _, _) => Ok(fmt_ordinal(output, date, modifier)),
        (Component::Weekday(modifier), Some(date), _, _) => Ok(fmt_weekday(output, date, modifier)),
        (Component::WeekNumber(modifier), Some(date), _, _) => Ok(
            fmt_week_number(output, date, modifier),
        ),
        (Component::Year(modifier), Some(date), _, _) => Ok(fmt_year(output, date, modifier)),
        (Component::Hour(modifier), _, Some(time), _) => Ok(fmt_hour(output, time, modifier)),
        (Component::Minute(modifier), _, Some(time), _) => Ok(fmt_minute(output, time, modifier)),
        (Component::Period(modifier), _, Some(time), _) => Ok(fmt_period(output, time, modifier)),
        (Component::Second(modifier), _, Some(time), _) => Ok(fmt_second(output, time, modifier)),
        (Component::Subsecond(modifier), _, Some(time), _) => Ok(
            fmt_subsecond(output, time, modifier),
        ),
        (Component::OffsetHour(modifier), _, _, Some(offset)) => Ok(
            fmt_offset_hour(output, offset, modifier),
        ),
        (Component::OffsetMinute(modifier), _, _, Some(offset)) => Ok(
            fmt_offset_minute(output, offset, modifier),
        ),
        (Component::OffsetSecond(modifier), _, _, Some(offset)) => Ok(
            fmt_offset_second(output, offset, modifier),
        ),
        _ => Err(error::Format::InsufficientTypeInformation),
    }
}

/// Format the day into the designated output.
pub(crate) fn fmt_day(output: &mut Vec<u8>, date: DateFields, modifier: modifier::Day) -> (r: usize)
    ensures
        final(output)@ == old(output)@ + day_text(date, modifier),
        r == day_text(date, modifier).len(),
{
    format_number::<2>(output, date.day as u32, modifier.padding)
}

/// Format the month into the designated output.
pub(crate) fn fmt_month(output: &mut Vec<u8>, date: DateFields, modifier: modifier::Month) -> (r: usize)
    requires
        date.valid(),
    ensures
        final(output)@ == old(output)@ + month_text(date, modifier),
        r == month_text(date, modifier).len(),
{
    match modifier.repr {
        modifier::MonthRepr::Numerical => format_number::<2>(
            output,
            date.month as u32,
            modifier.padding,
        ),
        modifier::MonthRepr::Long => write(output, month_name_bytes(date.month)),
        modifier::MonthRepr::Short => write(
            output,
            vstd::slice::slice_subrange(month_name_bytes(date.month), 0, 3),
        ),
    }
}

/// Format the ordinal into the designated output.
pub(crate) fn fmt_ordinal(output: &mut Vec<u8>, date: DateFields, modifier: modifier::Ordinal) -> (r: usize)
    ensures
        final(output)@ == old(output)@ + ordinal_text(date, modifier),
        r == ordinal_text(date, modifier).len(),
{
    format_number::<3>(output, date.ordinal as u32, modifier.padding)
}

/// Format the weekday into the designated output.
pub(crate) fn fmt_weekday(output: &mut Vec<u8>, date: DateFields, modifier: modifier::Weekday) -> (r: usize)
    requires
        date.valid(),
    ensures
        final(output)@ == old(output)@ + weekday_text(date, modifier),
        r == weekday_text(date, modifier).len(),
{
    let one_indexed: u8 = if modifier.one_indexed {
        1
    } else {
        0
    };
    match modifier.repr {
        modifier::WeekdayRepr::Short => write(
            output,
            vstd::slice::slice_subrange(weekday_name_bytes(date.weekday), 0, 3),
        ),
        modifier::WeekdayRepr::Long => write(output, weekday_name_bytes(date.weekday)),
        modifier::WeekdayRepr::Sunday => format_number::<1>(
            output,
            ((date.weekday + 1) % 7 + one_indexed) as u32,
            modifier::Padding::Unpadded,
        ),
        modifier::WeekdayRepr::Monday => format_number::<1>(
            output,
            (date.weekday + one_indexed) as u32,
            modifier::Padding::Unpadded,
        ),
    }
}

/// Format the week number into the designated output.
pub(crate) fn fmt_week_number(
    output: &mut Vec<u8>,
    date: DateFields,
    modifier: modifier::WeekNumber,
) -> (r: usize)
    ensures
        final(output)@ == old(output)@ + week_number_text(date, modifier),
        r == week_number_text(date, modifier).len(),
{
    format_number::<2>(
        output,
        match modifier.repr {
            modifier::WeekNumberRepr::Iso => date.iso_week,
            modifier::WeekNumberRepr::Sunday => date.sunday_based_week,
            modifier::WeekNumberRepr::Monday => date.monday_based_week,
        } as u32,
        modifier.padding,
    )
}

/// The magnitude of a year.
fn unsigned_abs(value: i32) -> (r: u32)
    ensures
        r == abs(value as int),
{
    if value < 0 {
        (-(value as i64)) as u32
    } else {
        value as u32
    }
}

/// Format the year into the designated output.
pub(crate) fn fmt_year(output: &mut Vec<u8>, date: DateFields, modifier: modifier::Year) -> (r: usize)
    ensures
        final(output)@ == old(output)@ + year_text(date, modifier),
        r == year_text(date, modifier).len(),
{
    let full_year = if modifier.iso_week_based {
        date.iso_year
    } else {
        date.year
    };
    let value = match modifier.repr {
        modifier::YearRepr::Full => full_year,
        modifier::YearRepr::LastTwo => {
            let last_two = full_year % 100;
            if last_two < 0 {
                -last_two
            } else {
                last_two
            }
        },
    };
    let mut bytes: usize = 0;
    if modifier.repr != modifier::YearRepr::LastTwo {
        if full_year < 0 {
            bytes += write(output, &[45u8]);
        } else if modifier.sign_is_mandatory {
            bytes += write(output, &[43u8]);
        }
    }
    let number = match modifier.repr {
        modifier::YearRepr::Full => format_number::<4>(output, unsigned_abs(value), modifier.padding),
        modifier::YearRepr::LastTwo => format_number::<2>(
            output,
            unsigned_abs(value),
            modifier.padding,
        ),
    };
    bytes += number;
    bytes
}

/// Format the hour into the designated output.
pub(crate) fn fmt_hour(output: &mut Vec<u8>, time: TimeFields, modifier: modifier::Hour) -> (r: usize)
    ensures
        final(output)@ == old(output)@ + hour_text(time, modifier),
        r == hour_text(time, modifier).len(),
{
    let value = if !modifier.is_12_hour_clock {
        time.hour
    } else if time.hour == 0 || time.hour == 12 {
        12
    } else if time.hour < 12 {
        time.hour
    } else {
        time.hour - 12
    };
    format_number::<2>(output, value as u32, modifier.padding)
}

/// Format the minute into the designated output.
pub(crate) fn fmt_minute(output: &mut Vec<u8>, time: TimeFields, modifier: modifier::Minute) -> (r: usize)
    ensures
        final(output)@ == old(output)@ + minute_text(time, modifier),
        r == minute_text(time, modifier).len(),
{
    format_number::<2>(output, time.minute as u32, modifier.padding)
}

/// Format the period into the designated output.
pub(crate) fn fmt_period(output: &mut Vec<u8>, time: TimeFields, modifier: modifier::Period) -> (r: usize)
    ensures
        final(output)@ == old(output)@ + period_text(time, modifier),
        r == period_text(time, modifier).len(),
{
    match (time.hour >= 12, modifier.is_uppercase) {
        (false, false) => write(output, &[97u8, 109u8]),
        (false, true) => write(output, &[65u8, 77u8]),
        (true, false) => write(output, &[112u8, 109u8]),
        (true, true) => write(output, &[80u8, 77u8]),
    }
}

/// Format the second into the designated output.
pub(crate) fn fmt_second(output: &mut Vec<u8>, time: TimeFields, modifier: modifier::Second) -> (r: usize)
    ensures
        final(output)@ == old(output)@ + second_text(time, modifier),
        r == second_text(time, modifier).len(),
{
    format_number::<2>(output, time.second as u32, modifier.padding)
}

/// Format the subsecond into the designated output.
pub(crate) fn fmt_subsecond(
    output: &mut Vec<u8>,
    time: TimeFields,
    modifier: modifier::Subsecond,
) -> (r: usize)
    ensures
        final(output)@ == old(output)@ + subsecond_text(time, modifier),
        r == subsecond_text(time, modifier).len(),
{
    let digits = modifier.digits;
    let nanos = time.nanosecond;
    proof {
        reveal_with_fuel(pow10, 10);
    }

    if digits == modifier::SubsecondDigits::Nine || (digits == modifier::SubsecondDigits::OneOrMore
        && nanos % 10 != 0) {
        proof {
            assert(subsecond_width(nanos as nat, digits) == 9);
            assert(pow10(0) == 1);
        }
        assert(nanos as nat / 1 == nanos as nat);
        format_number_pad_zero::<9>(output, nanos)
    } else if digits == modifier::SubsecondDigits::Eight || (digits
        == modifier::SubsecondDigits::OneOrMore && (nanos / 10) % 10 != 0) {
        proof {
            assert(subsecond_width(nanos as nat, digits) == 8);
            assert(pow10(1) == 10);
        }
        format_number_pad_zero::<8>(output, nanos / 10)
    } else if digits == modifier::SubsecondDigits::Seven || (digits
        == modifier::SubsecondDigits::OneOrMore && (nanos / 100) % 10 != 0) {
        proof {
            assert(subsecond_width(nanos as nat, digits) == 7);
            assert(pow10(2) == 100);
        }
        format_number_pad_zero::<7>(output, nanos / 100)
    } else if digits == modifier::SubsecondDigits::Six || (digits
        == modifier::SubsecondDigits::OneOrMore && (nanos / 1_000) % 10 != 0) {
        proof {
            assert(subsecond_width(nanos as nat, digits) == 6);
            assert(pow10(3) == 1000);
        }
        format_number_pad_zero::<6>(output, nanos / 1_000)
    } else if digits == modifier::SubsecondDigits::Five || (digits
        == modifier::SubsecondDigits::OneOrMore && (nanos / 10_000) % 10 != 0) {
        proof {
            assert(subsecond_width(nanos as nat, digits) == 5);
            assert(pow10(4) == 10000);
        }
        format_number_pad_zero::<5>(output, nanos / 10_000)
    } else if digits == modifier::SubsecondDigits::Four || (digits
        == modifier::SubsecondDigits::OneOrMore && (nanos / 100_000) % 10 != 0) {
        proof {
            assert(subsecond_width(nanos as nat, digits) == 4);
            assert(pow10(5) == 100000);
        }
        format_number_pad_zero::<4>(output, nanos / 100_000)
    } else if digits == modifier::SubsecondDigits::Three || (digits
        == modifier::SubsecondDigits::OneOrMore && (nanos / 1_000_000) % 10 != 0) {
        proof {
            assert(subsecond_width(nanos as nat, digits) == 3);
            assert(pow10(6) == 1000000);
        }
        format_number_pad_zero::<3>(output, nanos / 1_000_000)
    } else if digits == modifier::SubsecondDigits::Two || (digits
        == modifier::SubsecondDigits::OneOrMore && (nanos / 10_000_000) % 10 != 0) {
        proof {
            assert(subsecond_width(nanos as nat, digits) == 2);
            assert(pow10(7) == 10000000);
        }
        format_number_pad_zero::<2>(output, nanos / 10_000_000)
    } else {
        proof {
            assert(subsecond_width(nanos as nat, digits) == 1);
            assert(pow10(8) == 100000000);
        }
        format_number_pad_zero::<1>(output, nanos / 100_000_000)
    }
}

/// The magnitude of an offset component.
pub(crate) fn offset_component_abs(value: i8) -> (r: u32)
    requires
        value > i8::MIN,
    ensures
        r == abs(value as int),
{
    if value < 0 {
        (-value) as u32
    } else {
        value as u32
    }
}

/// Format the offset hour into the designated output.
pub(crate) fn fmt_offset_hour(
    output: &mut Vec<u8>,
    offset: UtcOffset,
    modifier: modifier::OffsetHour,
) -> (r: usize)
    ensures
        final(output)@ == old(output)@ + offset_hour_text(offset, modifier),
        r == offset_hour_text(offset, modifier).len(),
{
    proof { use_type_invariant(&offset); UtcOffset::lemma_from_offset(offset); }
    let mut bytes: usize = 0;
    if offset.is_negative() {
        bytes += write(output, &[45u8]);
    } else if modifier.sign_is_mandatory {
        bytes += write(output, &[43u8]);
    }
    bytes += format_number::<2>(output, offset_component_abs(offset.whole_hours()), modifier.padding);
    bytes
}

/// Format the offset minute into the designated output.
pub(crate) fn fmt_offset_minute(
    output: &mut Vec<u8>,
    offset: UtcOffset,
    modifier: modifier::OffsetMinute,
) -> (r: usize)
    ensures
        final(output)@ == old(output)@ + offset_minute_text(offset, modifier),
        r == offset_minute_text(offset, modifier).len(),
{
    proof { use_type_invariant(&offset); UtcOffset::lemma_from_offset(offset); }
    format_number::<2>(output, offset_component_abs(offset.minutes_past_hour()), modifier.padding)
}

/// Format the offset second into the designated output.
pub(crate) fn fmt_offset_second(
    output: &mut Vec<u8>,
    offset: UtcOffset,
    modifier: modifier::OffsetSecond,
) -> (r: usize)
    ensures
        final(output)@ == old(output)@ + offset_second_text(offset, modifier),
        r == offset_second_text(offset, modifier).len(),
{
    proof { use_type_invariant(&offset); UtcOffset::lemma_from_offset(offset); }
    format_number::<2>(output, offset_component_abs(offset.seconds_past_minute()), modifier.padding)
}
// endregion component formatters

// region: descriptions
/// The text of a format description, item by item, and whether every item could be formatted.
/// Formatting stops at the first component whose values are not given; the text is then what
/// the items before it produced.
pub open spec fn items_text(
    items: Seq<FormatItem>,
    date: Option<DateFields>,
    time: Option<TimeFields>,
    offset: Option<UtcOffset>,
) -> (Seq<u8>, bool)
    decreases items.len(),
{
    if items.len() == 0 {
        (Seq::empty(), true)
    } else {
        let first = match items[0] {
            FormatItem::Literal(bytes) => Some(bytes@),
            FormatItem::Component(component) => component_text(component, date, time, offset),
        };
        match first {
            Some(text) => {
                let rest = items_text(items.drop_first(), date, time, offset);
                (text + rest.0, rest.1)
            },
            None => (Seq::empty(), false),
        }
    }
}

/// Format the items of a description into the designated output, one after the other. An
/// `Err` is returned at the first component that requires information that is not provided;
/// what the items before it wrote stays in the output.
pub fn format_items(
    output: &mut Vec<u8>,
    items: &[FormatItem],
    date: Option<DateFields>,
    time: Option<TimeFields>,
    offset: Option<UtcOffset>,
) -> (r: Result<usize, error::Format>)
    requires
        date matches Some(d) ==> d.valid(),
    ensures
        final(output)@ == old(output)@ + items_text(items@, date, time, offset).0,
        items_text(items@, date, time, offset).1 ==> r == Ok::<usize, error::Format>(
            items_text(items@, date, time, offset).0.len() as usize,
        ),
        !items_text(items@, date, time, offset).1 ==> r == Err::<usize, error::Format>(
            error::Format::InsufficientTypeInformation,
        ),
{
    let start = output.len();
    let mut i: usize = 0;
    while i < items.len()
        invariant
            date matches Some(d) ==> d.valid(),
            0 <= i <= items@.len(),
            start == old(output)@.len(),
            items_text(items@.subrange(0, i as int), date, time, offset).1,
            output@ == old(output)@ + items_text(items@.subrange(0, i as int), date, time, offset).0,
        decreases items@.len() - i,
    {
        proof { lemma_items_text_push(items@.subrange(0, i as int), items@[i as int], date, time, offset); }
        assert(items@.subrange(0, i + 1) == items@.subrange(0, i as int).push(items@[i as int]));
        match items[i] {
            FormatItem::Literal(literal) => {
                write(output, literal);
            },
            FormatItem::Component(component) => {
                match format_component(output, component, date, time, offset) {
                    Ok(_) => {},
                    Err(err) => {
                        proof {
                            lemma_items_text_stops(items@, i as int, date, time, offset);
                        }
                        return Err(err);
                    },
                }
            },
        }
        i = i + 1;
    }
    assert(items@.subrange(0, items@.len() as int) == items@);
    Ok(output.len() - start)
}

/// The text of a description with one more item is the text of the description followed by
/// the item's text, as long as every item can be formatted.
proof fn lemma_items_text_push(
    items: Seq<FormatItem>,
    item: FormatItem,
    date: Option<DateFields>,
    time: Option<TimeFields>,
    offset: Option<UtcOffset>,
)
    requires
        items_text(items, date, time, offset).1,
    ensures
        ({
            let last = match item {
                FormatItem::Literal(bytes) => Some(bytes@),
                FormatItem::Component(component) => component_text(component, date, time, offset),
            };
            match last {
                Some(text) => items_text(items.push(item), date, time, offset) == (
                    items_text(items, date, time, offset).0 + text,
                    true,
                ),
                None => items_text(items.push(item), date, time, offset) == (
                    items_text(items, date, time, offset).0,
                    false,
                ),
            }
        }),
    decreases items.len(),
{
    let last = match item {
        FormatItem::Literal(bytes) => Some(bytes@),
        FormatItem::Component(component) => component_text(component, date, time, offset),
    };
    if items.len() == 0 {
        assert(items.push(item).drop_first() =~= Seq::<FormatItem>::empty());
        assert(items_text(Seq::<FormatItem>::empty(), date, time, offset) == (Seq::<u8>::empty(), true));
        assert(items.push(item)[0] == item);
        if let Some(text) = last {
            assert(text + Seq::<u8>::empty() =~= Seq::<u8>::empty() + text);
        }
    } else {
        assert(items.push(item).drop_first() == items.drop_first().push(item));
        lemma_items_text_push(items.drop_first(), item, date, time, offset);
        assert(items.push(item)[0] == items[0]);
        let first = match items[0] {
            FormatItem::Literal(bytes) => bytes@,
            FormatItem::Component(component) => component_text(
                component,
                date,
                time,
                offset,
            ).unwrap(),
        };
        let rest = items_text(items.drop_first(), date, time, offset).0;
        if let Some(text) = last {
            assert(first + (rest + text) =~= (first + rest) + text);
        }
    }
}

/// When the item at `i` cannot be formatted, the text of the whole description is the text of
/// the items before it, and formatting fails.
proof fn lemma_items_text_stops(
    items: Seq<FormatItem>,
    i: int,
    date: Option<DateFields>,
    time: Option<TimeFields>,
    offset: Option<UtcOffset>,
)
    requires
        0 <= i < items.len(),
        items_text(items.subrange(0, i), date, time, offset).1,
        items[i] matches FormatItem::Component(c) && component_text(c, date, time, offset) is None,
    ensures
        items_text(items, date, time, offset) == (
            items_text(items.subrange(0, i), date, time, offset).0,
            false,
        ),
    decreases i,
{
    if i > 0 {
        assert(items.drop_first().subrange(0, i - 1) == items.subrange(0, i).drop_first());
        lemma_items_text_stops(items.drop_first(), i - 1, date, time, offset);
    }
}
// endregion descriptions

// region: laws
/// The digit of `n` that stands `k` places from the right, as an ASCII byte.
pub open spec fn digit_byte(n: nat, k: nat) -> u8 {
    (48 + (n / pow10(k)) % 10) as u8
}

/// The decimal text of a number below ten to the `w` is at most `w` digits long.
proof fn lemma_decimal_digits_fit(m: nat, w: nat)
    requires
        1 <= w,
        m < pow10(w),
    ensures
        decimal_digits(m).len() <= w,
    decreases w,
{
    if m >= 10 {
        if w == 1 {
            assert(pow10(1) == 10) by {
                reveal_with_fuel(pow10, 2);
            }
        } else {
            assert(pow10(w) == 10 * pow10((w - 1) as nat));
            lemma_decimal_digits_fit(m / 10, (w - 1) as nat);
        }
    }
}

/// A number below ten to the `w`, padded with zeros to `w` digits, shows its `k`-th digit from
/// the right at place `w - 1 - k`.
pub proof fn lemma_zero_padded_digits(m: nat, w: nat)
    requires
        1 <= w,
        m < pow10(w),
    ensures
        padded(m, w, modifier::Padding::Zero).len() == w,
        forall|i: int|
            0 <= i < w ==> #[trigger] padded(m, w, modifier::Padding::Zero)[i] == digit_byte(
                m,
                (w - 1 - i) as nat,
            ),
    decreases w,
{
    let p = padded(m, w, modifier::Padding::Zero);
    lemma_decimal_digits_fit(m, w);
    assert(pow10(0) == 1);
    if w == 1 {
        assert(pow10(1) == 10) by {
            reveal_with_fuel(pow10, 2);
        }
        assert(repeat(48u8, 0) =~= Seq::<u8>::empty());
        assert(p =~= seq![(48 + m) as u8]);
    } else {
        assert(pow10(w) == 10 * pow10((w - 1) as nat));
        let q = padded(m / 10, (w - 1) as nat, modifier::Padding::Zero);
        lemma_zero_padded_digits(m / 10, (w - 1) as nat);
        let d = (48 + m % 10) as u8;
        if m >= 10 {
            assert(decimal_digits(m) == decimal_digits(m / 10).push(d));
            lemma_decimal_digits_fit(m / 10, (w - 1) as nat);
            let fill = (w - decimal_digits(m).len()) as nat;
            assert(repeat(48u8, fill) + decimal_digits(m / 10).push(d) =~= (repeat(48u8, fill)
                + decimal_digits(m / 10)).push(d));
        } else {
            assert(decimal_digits(m) =~= seq![(48 + m) as u8]);
            assert(decimal_digits(0) =~= seq![48u8]);
            assert(repeat(48u8, (w - 1) as nat) =~= repeat(48u8, (w - 2) as nat) + seq![48u8]);
            assert(repeat(48u8, (w - 1) as nat) + seq![(48 + m) as u8] =~= (repeat(
                48u8,
                (w - 2) as nat,
            ) + seq![48u8]).push(d));
        }
        assert(p =~= q.push(d));
        assert forall|i: int| 0 <= i < w implies #[trigger] p[i] == digit_byte(m, (w - 1 - i) as nat) by {
            if i < w - 1 {
                let k = (w - 2 - i) as nat;
                assert(q[i] == digit_byte(m / 10, k));
                crate::parsing::lemma_pow10_monotone(0, k);
                vstd::arithmetic::div_mod::lemma_div_denominator(m as int, 10, pow10(k) as int);
                assert(pow10(k + 1) == 10 * pow10(k));
                assert((w - 1 - i) as nat == k + 1);
            } else {
                assert(p[i] == d);
                assert(m / pow10(0) == m);
            }
        }
    }
}

/// The subsecond text is the first digits of the nanoseconds written as nine digits: as many as
/// the modifier asks for, and for `OneOrMore` all of them but the trailing zeros, keeping at
/// least one.
pub proof fn lemma_subsecond_text_is_prefix(time: TimeFields, m: modifier::Subsecond)
    requires
        time.nanosecond < 1_000_000_000,
    ensures
        ({
            let n = time.nanosecond as nat;
            let nine = padded(n, 9, modifier::Padding::Zero);
            let w = subsecond_width(n, m.digits);
            &&& 1 <= w <= 9
            &&& nine.len() == 9
            &&& subsecond_text(time, m) == nine.subrange(0, w as int)
            &&& m.digits == modifier::SubsecondDigits::OneOrMore ==> {
                &&& forall|j: int| w <= j < 9 ==> #[trigger] nine[j] == 48u8
                &&& w > 1 ==> nine[w - 1] != 48u8
            }
        }),
{
    let n = time.nanosecond as nat;
    let w = subsecond_width(n, m.digits);
    let nine = padded(n, 9, modifier::Padding::Zero);
    reveal_with_fuel(pow10, 10);
    assert(pow10(0) == 1 && pow10(1) == 10 && pow10(2) == 100 && pow10(3) == 1_000 && pow10(4)
        == 10_000 && pow10(5) == 100_000 && pow10(6) == 1_000_000 && pow10(7) == 10_000_000
        && pow10(8) == 100_000_000 && pow10(9) == 1_000_000_000);
    lemma_zero_padded_digits(n, 9);
    let a = pow10((9 - w) as nat);
    let b = pow10(w);
    crate::parsing::component::lemma_pow10_add((9 - w) as nat, w);
    let mm = n / a;
    vstd::arithmetic::div_mod::lemma_fundamental_div_mod(n as int, a as int);
    assert(mm < b) by (nonlinear_arith)
        requires
            n == a * mm + n % a,
            n % a >= 0,
            n < a * b,
            a > 0,
    ;
    lemma_zero_padded_digits(mm, w);
    let text = subsecond_text(time, m);
    assert forall|i: int| 0 <= i < w implies #[trigger] text[i] == nine.subrange(0, w as int)[i] by {
        let k = (w - 1 - i) as nat;
        crate::parsing::lemma_pow10_monotone(0, k);
        crate::parsing::lemma_pow10_monotone(0, (9 - w) as nat);
        vstd::arithmetic::div_mod::lemma_div_denominator(n as int, a as int, pow10(k) as int);
        crate::parsing::component::lemma_pow10_add((9 - w) as nat, k);
        assert((9 - w) as nat + k == (8 - i) as nat);
    }
    assert(text =~= nine.subrange(0, w as int));
    if m.digits == modifier::SubsecondDigits::OneOrMore {
        assert forall|j: int| w <= j < 9 implies #[trigger] nine[j] == 48u8 by {
            assert(j == 0 || j == 1 || j == 2 || j == 3 || j == 4 || j == 5 || j == 6 || j == 7
                || j == 8);
        }
    }
}
/// The period is `AM` (or `am`) exactly before noon and `PM` (or `pm`) exactly from noon on,
/// in capitals when the modifier asks for them.
pub proof fn lemma_period_text_by_hour(time: TimeFields, m: modifier::Period)
    ensures
        period_text(time, m).len() == 2,
        (period_text(time, m)[0] == 65 || period_text(time, m)[0] == 97) <==> time.hour < 12,
        (period_text(time, m)[0] == 80 || period_text(time, m)[0] == 112) <==> time.hour >= 12,
        m.is_uppercase ==> period_text(time, m)[1] == 77 && (period_text(time, m)[0] == 65
            || period_text(time, m)[0] == 80),
        !m.is_uppercase ==> period_text(time, m)[1] == 109 && (period_text(time, m)[0] == 97
            || period_text(time, m)[0] == 112),
{
}

/// A numeric weekday is one digit that counts the days from the first day of the week:
/// Sunday for the Sunday-based count, Monday for the Monday-based one. The first day is `0`,
/// or `1` when one-indexed, so one-indexed digits run from `1` to `7` and the others from `0` to
/// `6`; and the day after a weekday that is not the last of the week has the next digit.
pub proof fn lemma_numeric_weekday_text(date: DateFields, next: DateFields, m: modifier::Weekday)
    requires
        date.weekday <= 6,
        next.weekday == (date.weekday + 1) % 7,
        m.repr == modifier::WeekdayRepr::Sunday || m.repr == modifier::WeekdayRepr::Monday,
    ensures
        weekday_text(date, m).len() == 1,
        m.one_indexed ==> 49 <= weekday_text(date, m)[0] <= 55,
        !m.one_indexed ==> 48 <= weekday_text(date, m)[0] <= 54,
        m.repr == modifier::WeekdayRepr::Sunday ==> (date.weekday == 6 <==> weekday_text(date, m)[0]
            == if m.one_indexed { 49u8 } else { 48u8 }),
        m.repr == modifier::WeekdayRepr::Monday ==> (date.weekday == 0 <==> weekday_text(date, m)[0]
            == if m.one_indexed { 49u8 } else { 48u8 }),
        (m.repr == modifier::WeekdayRepr::Sunday && date.weekday != 5 || m.repr
            == modifier::WeekdayRepr::Monday && date.weekday != 6) ==> weekday_text(next, m)[0]
            == weekday_text(date, m)[0] + 1,
{
}

// endregion laws

} // verus!
