//! Parsers for the components of a format description.
//!
//! Each parser reads one component from the start of the input and returns what is left of the
//! input together with the component's value, or `None` when the input does not hold the
//! component in the form its modifiers describe.

use vstd::prelude::*;

use crate::format_description::modifier;
use crate::formatting::{
    digit_byte, hour_text, lemma_zero_padded_digits, month_name, month_text, padded, period_text,
    pow10, repeat, weekday_name, weekday_text, year_text, DateFields, TimeFields,
};
use crate::parsing::{
    digits_value, exactly_n_digits_padded, leading_digits, leading_sign, lemma_leading_run, lemma_pow10_monotone,
    n_to_m_digits, opt_sign, skip_prefix, spec_digits_padded, spec_n_to_m_digits, starts_with,
    starts_with_case, ParsedItem,
};

verus! {

// region: results
/// Whether a parser's result is what `expected` describes: `None`, or the input after the
/// first `k` bytes together with a value `v` (as `value` reads it) for `Some((k, v))`.
pub open spec fn parses_to<T>(
    input: Seq<u8>,
    r: Option<ParsedItem<'_, T>>,
    expected: Option<(nat, int)>,
    value: spec_fn(T) -> int,
) -> bool {
    match expected {
        None => r is None,
        Some((k, v)) => r matches Some(item) && item.0@ == input.skip(k as int) && value(item.1)
            == v,
    }
}

/// Two digits padded as the modifier says, read as a number.
pub open spec fn two_digits(s: Seq<u8>, padding: modifier::Padding) -> Option<(nat, int)> {
    match spec_digits_padded(s, 2, padding) {
        Some((k, v)) => Some((k, v as int)),
        None => None,
    }
}

/// A parsed value that must not be zero.
pub open spec fn nonzero(parsed: Option<(nat, int)>) -> Option<(nat, int)> {
    match parsed {
        Some((k, v)) => if v != 0 {
            Some((k, v))
        } else {
            None
        },
        None => None,
    }
}
// endregion results

// region: names
/// The name of a month as a format description writes it: its long name, or the first three
/// letters of it.
pub open spec fn month_repr_name(month: int, repr: modifier::MonthRepr) -> Seq<u8> {
    if repr == modifier::MonthRepr::Short {
        month_name(month).subrange(0, 3)
    } else {
        month_name(month)
    }
}

/// The first month, from `month` on in calendar order, whose name the input starts with.
pub open spec fn first_month_match(
    s: Seq<u8>,
    repr: modifier::MonthRepr,
    case_sensitive: bool,
    month: int,
) -> Option<int>
    decreases 13 - month,
{
    if month < 1 || month > 12 {
        None
    } else if starts_with_case(s, month_repr_name(month, repr), case_sensitive) {
        Some(month)
    } else {
        first_month_match(s, repr, case_sensitive, month + 1)
    }
}

/// The name of a weekday (0 is Monday) as a format description writes it: its long name, or the
/// first three letters of it.
pub open spec fn weekday_repr_name(days_from_monday: int, repr: modifier::WeekdayRepr) -> Seq<u8> {
    if repr == modifier::WeekdayRepr::Short {
        weekday_name(days_from_monday).subrange(0, 3)
    } else {
        weekday_name(days_from_monday)
    }
}

/// The first weekday, from `day` on counting from Monday, whose name the input starts with.
pub open spec fn first_weekday_match(
    s: Seq<u8>,
    repr: modifier::WeekdayRepr,
    case_sensitive: bool,
    day: int,
) -> Option<int>
    decreases 7 - day,
{
    if day < 0 || day > 6 {
        None
    } else if starts_with_case(s, weekday_repr_name(day, repr), case_sensitive) {
        Some(day)
    } else {
        first_weekday_match(s, repr, case_sensitive, day + 1)
    }
}

/// The text of "AM" (`pm` false) or "PM", in capitals or in small letters.
pub open spec fn period_name(pm: bool, is_uppercase: bool) -> Seq<u8> {
    let a_or_p: u8 = if pm {
        80
    } else {
        65
    };
    if is_uppercase {
        seq![a_or_p, 77u8]
    } else {
        seq![(a_or_p + 32) as u8, 109u8]
    }
}

/// The name of a month, long or short.
fn month_repr_name_bytes(month: u8, repr: modifier::MonthRepr) -> (r: &'static [u8])
    requires
        1 <= month <= 12,
    ensures
        r@ == month_repr_name(month as int, repr),
{
    let name = crate::formatting::month_name_bytes(month);
    match repr {
        modifier::MonthRepr::Short => {
            let short = vstd::slice::slice_subrange(name, 0, 3);
            assert(short@ =~= month_name(month as int).subrange(0, 3));
            short
        },
        _ => name,
    }
}

/// The name of a weekday (0 is Monday), long or short.
fn weekday_repr_name_bytes(days_from_monday: u8, repr: modifier::WeekdayRepr) -> (r: &'static [u8])
    requires
        days_from_monday <= 6,
    ensures
        r@ == weekday_repr_name(days_from_monday as int, repr),
{
    let name = crate::formatting::weekday_name_bytes(days_from_monday);
    match repr {
        modifier::WeekdayRepr::Short => {
            let short = vstd::slice::slice_subrange(name, 0, 3);
            assert(short@ =~= weekday_name(days_from_monday as int).subrange(0, 3));
            short
        },
        _ => name,
    }
}
// endregion names

// region: specifications
/// What the "year" component reads. The full year is an optional sign (mandatory if the
/// modifier says so) and four digits; a `-` makes it negative. The last two digits are two
/// digits.
pub open spec fn spec_parse_year(s: Seq<u8>, m: modifier::Year) -> Option<(nat, int)> {
    match m.repr {
        modifier::YearRepr::Full => {
            let sign = leading_sign(s);
            let sign_len: nat = if sign is Some {
                1
            } else {
                0
            };
            match spec_digits_padded(s.skip(sign_len as int), 4, m.padding) {
                None => None,
                Some((k, v)) => if sign is None && m.sign_is_mandatory {
                    None
                } else if sign == Some(45u8) {
                    Some((sign_len + k, -v))
                } else {
                    Some((sign_len + k, v as int))
                },
            }
        },
        modifier::YearRepr::LastTwo => two_digits(s, m.padding),
    }
}

/// What the "month" component reads: a number from 1 to 12, or the first name that matches.
pub open spec fn spec_parse_month(s: Seq<u8>, m: modifier::Month) -> Option<(nat, int)> {
    if m.repr == modifier::MonthRepr::Numerical {
        match two_digits(s, m.padding) {
            Some((k, v)) => if 1 <= v <= 12 {
                Some((k, v))
            } else {
                None
            },
            None => None,
        }
    } else {
        match first_month_match(s, m.repr, m.case_sensitive, 1) {
            Some(month) => Some((month_repr_name(month, m.repr).len(), month)),
            None => None,
        }
    }
}

/// What the "weekday" component reads, as days from Monday: the first name that matches, or a
/// single digit counting from Sunday or from Monday, from zero or from one.
pub open spec fn spec_parse_weekday(s: Seq<u8>, m: modifier::Weekday) -> Option<(nat, int)> {
    let first_number: int = if m.one_indexed {
        1
    } else {
        0
    };
    match m.repr {
        modifier::WeekdayRepr::Short | modifier::WeekdayRepr::Long => match first_weekday_match(
            s,
            m.repr,
            m.case_sensitive,
            0,
        ) {
            Some(day) => Some((weekday_repr_name(day, m.repr).len(), day)),
            None => None,
        },
        _ => if s.len() > 0 && 48 + first_number <= s[0] <= 54 + first_number {
            let number = s[0] - 48 - first_number;
            if m.repr == modifier::WeekdayRepr::Sunday {
                Some((1, (number + 6) % 7))
            } else {
                Some((1, number))
            }
        } else {
            None
        },
    }
}

/// What the "period" component reads: `AM` (`0`) or `PM` (`1`), in the case the modifier gives
/// unless case does not matter.
pub open spec fn spec_parse_period(s: Seq<u8>, m: modifier::Period) -> Option<(nat, int)> {
    if starts_with_case(s, period_name(false, m.is_uppercase), m.case_sensitive) {
        Some((2, 0))
    } else if starts_with_case(s, period_name(true, m.is_uppercase), m.case_sensitive) {
        Some((2, 1))
    } else {
        None
    }
}

/// The number of digits that a fixed subsecond width reads.
pub open spec fn subsecond_digit_count(digits: modifier::SubsecondDigits) -> nat {
    match digits {
        modifier::SubsecondDigits::One => 1,
        modifier::SubsecondDigits::Two => 2,
        modifier::SubsecondDigits::Three => 3,
        modifier::SubsecondDigits::Four => 4,
        modifier::SubsecondDigits::Five => 5,
        modifier::SubsecondDigits::Six => 6,
        modifier::SubsecondDigits::Seven => 7,
        modifier::SubsecondDigits::Eight => 8,
        _ => 9,
    }
}

/// What the "subsecond" component reads, as nanoseconds: exactly the number of digits the
/// modifier gives, or, for `OneOrMore`, every digit there is (at least one), of which the first
/// nine count.
pub open spec fn spec_parse_subsecond(s: Seq<u8>, m: modifier::Subsecond) -> Option<(nat, int)> {
    if m.digits == modifier::SubsecondDigits::OneOrMore {
        match spec_n_to_m_digits(s, 1, 9) {
            Some((k, v)) => Some((leading_digits(s), (v * pow10((9 - k) as nat)) as int)),
            None => None,
        }
    } else {
        let n = subsecond_digit_count(m.digits);
        match spec_n_to_m_digits(s, n, n) {
            Some((k, v)) => Some((k, (v * pow10((9 - n) as nat)) as int)),
            None => None,
        }
    }
}

/// What the "offset hour" component reads: an optional sign (mandatory if the modifier says
/// so) and two digits; a `-` makes it negative.
pub open spec fn spec_parse_offset_hour(s: Seq<u8>, m: modifier::OffsetHour) -> Option<(nat, int)> {
    let sign = leading_sign(s);
    let sign_len: nat = if sign is Some {
        1
    } else {
        0
    };
    match two_digits(s.skip(sign_len as int), m.padding) {
        None => None,
        Some((k, v)) => if sign is None && m.sign_is_mandatory {
            None
        } else if sign == Some(45u8) {
            Some((sign_len + k, -v))
        } else {
            Some((sign_len + k, v))
        },
    }
}
// endregion specifications

// region: parsers
/// Parse the "year" component of a `Date`.
pub fn parse_year(input: &[u8], modifiers: modifier::Year) -> (r: Option<ParsedItem<'_, i32>>)
    ensures
        parses_to(input@, r, spec_parse_year(input@, modifiers), |v: i32| v as int),
{
    reveal_with_fuel(pow10, 5);
    match modifiers.repr {
        modifier::YearRepr::Full => {
            let ParsedItem(rest, sign) = opt_sign(input);
            let ParsedItem(rest2, year) = match exactly_n_digits_padded::<u32>(rest, 4, modifiers.padding) {
                Some(item) => item,
                None => return None,
            };
            proof {
                let sign_len: int = if sign is Some { 1 } else { 0 };
                let k = spec_digits_padded(input@.skip(sign_len), 4, modifiers.padding).unwrap().0;
                lemma_digits_padded_len(rest@, 4, modifiers.padding);
                assert(input@.skip(sign_len).skip(k as int) =~= input@.skip(sign_len + k));
            }
            match sign {
                Some(45u8) => Some(ParsedItem(rest2, -(year as i32))),
                None => if modifiers.sign_is_mandatory {
                    None
                } else {
                    Some(ParsedItem(rest2, year as i32))
                },
                _ => Some(ParsedItem(rest2, year as i32)),
            }
        },
        modifier::YearRepr::LastTwo => match exactly_n_digits_padded::<u32>(input, 2, modifiers.padding) {
            Some(ParsedItem(rest, year)) => Some(ParsedItem(rest, year as i32)),
            None => None,
        },
    }
}

/// Parse the "month" component of a `Date`, as the month's number.
pub fn parse_month(input: &[u8], modifiers: modifier::Month) -> (r: Option<ParsedItem<'_, u8>>)
    ensures
        parses_to(input@, r, spec_parse_month(input@, modifiers), |v: u8| v as int),
{
    reveal_with_fuel(pow10, 3);
    match modifiers.repr {
        modifier::MonthRepr::Numerical => {
            match exactly_n_digits_padded::<u8>(input, 2, modifiers.padding) {
                Some(ParsedItem(rest, month)) => if 1 <= month && month <= 12 {
                    Some(ParsedItem(rest, month))
                } else {
                    None
                },
                None => None,
            }
        },
        _ => {
            let mut month: u8 = 1;
            while month <= 12
                invariant
                    1 <= month <= 13,
                    modifiers.repr != modifier::MonthRepr::Numerical,
                    first_month_match(input@, modifiers.repr, modifiers.case_sensitive, 1)
                        == first_month_match(input@, modifiers.repr, modifiers.case_sensitive, month as int),
                decreases 13 - month,
            {
                let name = month_repr_name_bytes(month, modifiers.repr);
                if starts_with(input, name, modifiers.case_sensitive) {
                    return Some(ParsedItem(skip_prefix(input, name.len()), month));
                }
                month = month + 1;
            }
            None
        },
    }
}

/// Parse the "weekday" component of a `Date`, as days from Monday.
pub fn parse_weekday(input: &[u8], modifiers: modifier::Weekday) -> (r: Option<ParsedItem<'_, u8>>)
    ensures
        parses_to(input@, r, spec_parse_weekday(input@, modifiers), |v: u8| v as int),
{
    match modifiers.repr {
        modifier::WeekdayRepr::Short | modifier::WeekdayRepr::Long => {
            let mut day: u8 = 0;
            while day <= 6
                invariant
                    day <= 7,
                    modifiers.repr == modifier::WeekdayRepr::Short || modifiers.repr
                        == modifier::WeekdayRepr::Long,
                    first_weekday_match(input@, modifiers.repr, modifiers.case_sensitive, 0)
                        == first_weekday_match(input@, modifiers.repr, modifiers.case_sensitive, day as int),
                decreases 7 - day,
            {
                let name = weekday_repr_name_bytes(day, modifiers.repr);
                if starts_with(input, name, modifiers.case_sensitive) {
                    return Some(ParsedItem(skip_prefix(input, name.len()), day));
                }
                day = day + 1;
            }
            None
        },
        _ => {
            let first_number: u8 = if modifiers.one_indexed {
                1
            } else {
                0
            };
            if input.len() > 0 && 48 + first_number <= input[0] && input[0] <= 54 + first_number {
                let number = input[0] - 48 - first_number;
                let day = match modifiers.repr {
                    modifier::WeekdayRepr::Sunday => (number + 6) % 7,
                    _ => number,
                };
                Some(ParsedItem(skip_prefix(input, 1), day))
            } else {
                None
            }
        },
    }
}

/// Parse the "day" component of a `Date`.
pub fn parse_day(input: &[u8], modifiers: modifier::Day) -> (r: Option<ParsedItem<'_, u8>>)
    ensures
        parses_to(input@, r, nonzero(two_digits(input@, modifiers.padding)), |v: u8| v as int),
{
    reveal_with_fuel(pow10, 3);
    match exactly_n_digits_padded::<u8>(input, 2, modifiers.padding) {
        Some(ParsedItem(rest, day)) => if day != 0 {
            Some(ParsedItem(rest, day))
        } else {
            None
        },
        None => None,
    }
}

/// Parse the "ordinal" component of a `Date`.
pub fn parse_ordinal(input: &[u8], modifiers: modifier::Ordinal) -> (r: Option<ParsedItem<'_, u16>>)
    ensures
        parses_to(
            input@,
            r,
            nonzero(
                match spec_digits_padded(input@, 3, modifiers.padding) {
                    Some((k, v)) => Some((k, v as int)),
                    None => None,
                },
            ),
            |v: u16| v as int,
        ),
{
    reveal_with_fuel(pow10, 4);
    match exactly_n_digits_padded::<u16>(input, 3, modifiers.padding) {
        Some(ParsedItem(rest, ordinal)) => if ordinal != 0 {
            Some(ParsedItem(rest, ordinal))
        } else {
            None
        },
        None => None,
    }
}

/// Parse a component of two digits padded as the modifier says: the week number, the hour, the
/// minute, the second, and the offset's minutes and seconds.
pub fn parse_two_digits(input: &[u8], padding: modifier::Padding) -> (r: Option<ParsedItem<'_, u8>>)
    ensures
        parses_to(input@, r, two_digits(input@, padding), |v: u8| v as int),
        r matches Some(item) ==> item.1 < 100,
{
    reveal_with_fuel(pow10, 3);
    exactly_n_digits_padded::<u8>(input, 2, padding)
}

/// Parse the "period" component of a `Time`: `false` for AM, `true` for PM.
pub fn parse_period(input: &[u8], modifiers: modifier::Period) -> (r: Option<ParsedItem<'_, bool>>)
    ensures
        parses_to(input@, r, spec_parse_period(input@, modifiers), |v: bool| if v { 1int } else { 0int }),
{
    let (am, pm): (&[u8], &[u8]) = if modifiers.is_uppercase {
        (&[65u8, 77], &[80u8, 77])
    } else {
        (&[97u8, 109], &[112u8, 109])
    };
    assert(am@ =~= period_name(false, modifiers.is_uppercase));
    assert(pm@ =~= period_name(true, modifiers.is_uppercase));
    if starts_with(input, am, modifiers.case_sensitive) {
        Some(ParsedItem(skip_prefix(input, 2), false))
    } else if starts_with(input, pm, modifiers.case_sensitive) {
        Some(ParsedItem(skip_prefix(input, 2), true))
    } else {
        None
    }
}

/// Parse the "subsecond" component of a `Time`, as nanoseconds.
pub fn parse_subsecond(input: &[u8], modifiers: modifier::Subsecond) -> (r: Option<ParsedItem<'_, u32>>)
    ensures
        parses_to(input@, r, spec_parse_subsecond(input@, modifiers), |v: u32| v as int),
{
    reveal_with_fuel(pow10, 10);
    match modifiers.digits {
        modifier::SubsecondDigits::OneOrMore => {
            let ParsedItem(rest, value) = match n_to_m_digits::<u32>(input, 1, 9) {
                Some(item) => item,
                None => return None,
            };
            proof { lemma_leading_run(input@, 48, 57, 0); }
            let read = input.len() - rest.len();
            proof {
                let digits = input@.subrange(0, read as int);
                assert forall|j: int| 0 <= j < digits.len() implies 48 <= #[trigger] digits[j] <= 57 by {
                    assert(digits[j] == input@[j]);
                }
                crate::parsing::lemma_digits_value_bound(digits);
            }
            let mut end: usize = read;
            while end < input.len() && 48u8 <= input[end] && input[end] <= 57u8
                invariant
                    read <= end <= input@.len(),
                    read == spec_n_to_m_digits(input@, 1, 9).unwrap().0,
                    forall|j: int| 0 <= j < end ==> 48 <= #[trigger] input@[j] <= 57,
                decreases input@.len() - end,
            {
                end = end + 1;
            }
            proof {
                lemma_leading_run(input@, 48, 57, end as int);
                lemma_subsecond_scale(value as nat, read as nat);
            }
            let scaled = value * scale_for_digits(read);
            Some(ParsedItem(skip_prefix(input, end), scaled))
        },
        _ => {
            let n = subsecond_digit_count_exec(modifiers.digits);
            match n_to_m_digits::<u32>(input, n, n) {
                Some(ParsedItem(rest, value)) => {
                    proof { lemma_subsecond_scale(value as nat, n as nat); }
                    Some(ParsedItem(rest, value * scale_for_digits(n as usize)))
                },
                None => None,
            }
        },
    }
}

/// Parse the "hour" component of a `UtcOffset`.
pub fn parse_offset_hour(input: &[u8], modifiers: modifier::OffsetHour) -> (r: Option<ParsedItem<'_, i8>>)
    ensures
        parses_to(input@, r, spec_parse_offset_hour(input@, modifiers), |v: i8| v as int),
{
    let ParsedItem(rest, sign) = opt_sign(input);
    let ParsedItem(rest2, hour) = match parse_two_digits(rest, modifiers.padding) {
        Some(item) => item,
        None => return None,
    };
    proof {
        let sign_len: int = if sign is Some { 1 } else { 0 };
        let k = two_digits(input@.skip(sign_len), modifiers.padding).unwrap().0;
        lemma_digits_padded_len(rest@, 2, modifiers.padding);
        assert(input@.skip(sign_len).skip(k as int) =~= input@.skip(sign_len + k));
    }
    match sign {
        Some(45u8) => Some(ParsedItem(rest2, -(hour as i8))),
        None => if modifiers.sign_is_mandatory {
            None
        } else {
            Some(ParsedItem(rest2, hour as i8))
        },
        _ => Some(ParsedItem(rest2, hour as i8)),
    }
}
// endregion parsers

// region: laws
/// Two digits that formatting padded with zeros or with spaces read back as the number they
/// show, whatever follows them.
pub proof fn lemma_two_digits_read_back(v: nat, padding: modifier::Padding, tail: Seq<u8>)
    requires
        v < 100,
        padding != modifier::Padding::Unpadded,
    ensures
        two_digits(padded(v, 2, padding) + tail, padding) == Some((padded(v, 2, padding).len(), v as int)),
        padded(v, 2, padding).len() == 2,
        48 <= padded(v, 2, padding)[0] <= 57 || padded(v, 2, padding)[0] == 32,
{
    let text = padded(v, 2, padding);
    let t = text + tail;
    if v < 10 {
        let fill: u8 = if padding == modifier::Padding::Zero {
            48
        } else {
            32
        };
        assert(repeat(fill, 1) =~= seq![fill]);
        assert(text =~= seq![fill, (48 + v) as u8]);
        assert(t[0] == fill && t[1] == (48 + v) as u8);
        if padding == modifier::Padding::Zero {
            lemma_leading_run(t, 48, 57, 2);
            assert(t.subrange(0, 2) =~= seq![48u8, (48 + v) as u8]);
            assert(t.subrange(0, 2).drop_last() =~= seq![48u8]);
            assert(seq![48u8].drop_last() =~= Seq::<u8>::empty());
            lemma_digits_value_single(48u8);
            assert(digits_value(t.subrange(0, 2)) == v);
        } else {
            lemma_leading_run(t, 32, 32, 1);
            let rest = t.skip(1);
            assert(rest[0] == t[1]);
            lemma_leading_run(rest, 48, 57, 1);
            assert(rest.subrange(0, 1) =~= seq![(48 + v) as u8]);
            assert(seq![(48 + v) as u8].drop_last() =~= Seq::<u8>::empty());
            lemma_digits_value_single((48 + v) as u8);
            assert(digits_value(rest.subrange(0, 1)) == v);
        }
    } else {
        assert(crate::text::decimal_digits(v) =~= seq![(48 + v / 10) as u8, (48 + v % 10) as u8]) by {
            reveal_with_fuel(crate::text::decimal_digits, 2);
        }
        assert(text =~= seq![(48 + v / 10) as u8, (48 + v % 10) as u8]);
        assert(t[0] == (48 + v / 10) as u8 && t[1] == (48 + v % 10) as u8);
        lemma_leading_run(t, 48, 57, 2);
        assert(t.subrange(0, 2) =~= seq![(48 + v / 10) as u8, (48 + v % 10) as u8]);
        assert(t.subrange(0, 2).drop_last() =~= seq![(48 + v / 10) as u8]);
        assert(seq![(48 + v / 10) as u8].drop_last() =~= Seq::<u8>::empty());
        lemma_digits_value_single((48 + v / 10) as u8);
        assert(digits_value(t.subrange(0, 2)) == v);
        if padding == modifier::Padding::Space {
            lemma_leading_run(t, 32, 32, 0);
            assert(t.skip(0) =~= t);
        }
    }
}

/// The value of a single digit.
proof fn lemma_digits_value_single(b: u8)
    requires
        b >= 48,
    ensures
        digits_value(seq![b]) == b - 48,
{
    let s = seq![b];
    assert(s.drop_last() =~= Seq::<u8>::empty());
    assert(s.last() == b);
    assert(digits_value(Seq::<u8>::empty()) == 0);
    assert(digits_value(s) == digits_value(s.drop_last()) * 10 + (s.last() - 48) as nat);
}
/// A numeric weekday is one digit, from `0` to `6`, or from `1` to `7` when one-indexed: the
/// parser accepts exactly those and reads one byte.
pub proof fn lemma_numeric_weekday_digits(s: Seq<u8>, m: modifier::Weekday)
    requires
        m.repr == modifier::WeekdayRepr::Sunday || m.repr == modifier::WeekdayRepr::Monday,
    ensures
        m.one_indexed ==> (spec_parse_weekday(s, m) is Some <==> s.len() > 0 && 49 <= s[0] <= 55),
        !m.one_indexed ==> (spec_parse_weekday(s, m) is Some <==> s.len() > 0 && 48 <= s[0] <= 54),
        spec_parse_weekday(s, m) matches Some((k, d)) ==> k == 1 && 0 <= d <= 6,
{
}

/// Parsing a weekday reads back the one that formatting wrote, for every weekday and every
/// modifier, whatever follows the text.
pub proof fn lemma_weekday_read_back(date: DateFields, m: modifier::Weekday, tail: Seq<u8>)
    requires
        date.weekday <= 6,
    ensures
        spec_parse_weekday(weekday_text(date, m) + tail, m) == Some(
            (weekday_text(date, m).len(), date.weekday as int),
        ),
{
    let t = weekday_text(date, m) + tail;
    let w = date.weekday as int;
    let first: nat = if m.one_indexed { 1 } else { 0 };
    match m.repr {
        modifier::WeekdayRepr::Sunday => {
            let n = ((date.weekday + 1) % 7) as nat + first;
            assert(weekday_text(date, m) == seq![(48 + n) as u8]);
            assert(t[0] == (48 + n) as u8);
        },
        modifier::WeekdayRepr::Monday => {
            let n = date.weekday as nat + first;
            assert(weekday_text(date, m) == seq![(48 + n) as u8]);
            assert(t[0] == (48 + n) as u8);
        },
        _ => {
            lemma_weekday_names_read_back(date, m, tail);
        },
    }
}

/// A weekday's name, long or short, followed by anything, is matched first by its own name.
proof fn lemma_weekday_names_read_back(date: DateFields, m: modifier::Weekday, tail: Seq<u8>)
    requires
        date.weekday <= 6,
        m.repr == modifier::WeekdayRepr::Short || m.repr == modifier::WeekdayRepr::Long,
    ensures
        first_weekday_match(weekday_text(date, m) + tail, m.repr, m.case_sensitive, 0) == Some(
            date.weekday as int,
        ),
        weekday_text(date, m) == weekday_repr_name(date.weekday as int, m.repr),
{
    let w = date.weekday as int;
    let t = weekday_text(date, m) + tail;
    assert(weekday_text(date, m) == weekday_repr_name(w, m.repr));
    let name = weekday_repr_name(w, m.repr);
    assert forall|i: int| 0 <= i < name.len() implies t[i] == name[i] by {}
    assert(starts_with_case(t, name, m.case_sensitive));
    assert forall|e: int| 0 <= e < w implies !starts_with_case(t, #[trigger] weekday_repr_name(e, m.repr), m.case_sensitive) by {
        lemma_weekday_names_differ(e, w);
        let other = weekday_repr_name(e, m.repr);
        assert(other[0] == weekday_name(e)[0] && other[1] == weekday_name(e)[1]);
        assert(name[0] == weekday_name(w)[0] && name[1] == weekday_name(w)[1]);
    }
    lemma_first_weekday_from(t, m.repr, m.case_sensitive, 0, w);
}

/// The search for a weekday's name, from `d` on, finds `w` when `w`'s name starts the text and
/// no name between them does.
proof fn lemma_first_weekday_from(
    t: Seq<u8>,
    repr: modifier::WeekdayRepr,
    case_sensitive: bool,
    d: int,
    w: int,
)
    requires
        0 <= d <= w <= 6,
        starts_with_case(t, weekday_repr_name(w, repr), case_sensitive),
        forall|e: int| d <= e < w ==> !starts_with_case(t, #[trigger] weekday_repr_name(e, repr), case_sensitive),
    ensures
        first_weekday_match(t, repr, case_sensitive, d) == Some(w),
    decreases w - d,
{
    if d < w {
        lemma_first_weekday_from(t, repr, case_sensitive, d + 1, w);
    }
}

/// The names of two different weekdays differ in their first two letters, whatever their case.
proof fn lemma_weekday_names_differ(d: int, w: int)
    requires
        0 <= d <= 6,
        0 <= w <= 6,
        d != w,
    ensures
        crate::parsing::ascii_lowercase(weekday_name(d)[0]) != crate::parsing::ascii_lowercase(weekday_name(w)[0])
            || crate::parsing::ascii_lowercase(weekday_name(d)[1]) != crate::parsing::ascii_lowercase(weekday_name(w)[1]),
{
}

/// The period reads back what formatting wrote: `AM` before noon and `PM` from noon, whatever
/// follows the text.
pub proof fn lemma_period_read_back(time: TimeFields, m: modifier::Period, tail: Seq<u8>)
    ensures
        spec_parse_period(period_text(time, m) + tail, m) == Some(
            (2nat, if time.hour >= 12 { 1int } else { 0int }),
        ),
{
    let t = period_text(time, m) + tail;
    assert(t[0] == period_text(time, m)[0] && t[1] == period_text(time, m)[1]);
}

/// A period is two letters, `A` or `P` and then `M`. When case matters they must be in the
/// modifier's case; when it does not, either case is accepted. `AM` reads as `0`, `PM` as `1`.
pub proof fn lemma_period_letters(s: Seq<u8>, m: modifier::Period)
    ensures
        !m.case_sensitive ==> (spec_parse_period(s, m) is Some <==> s.len() >= 2 && (s[0] == 65
            || s[0] == 97 || s[0] == 80 || s[0] == 112) && (s[1] == 77 || s[1] == 109)),
        m.case_sensitive && m.is_uppercase ==> (spec_parse_period(s, m) is Some <==> s.len() >= 2
            && (s[0] == 65 || s[0] == 80) && s[1] == 77),
        m.case_sensitive && !m.is_uppercase ==> (spec_parse_period(s, m) is Some <==> s.len() >= 2
            && (s[0] == 97 || s[0] == 112) && s[1] == 109),
        spec_parse_period(s, m) matches Some((k, v)) ==> k == 2 && (v == 1 <==> (s[0] == 80
            || s[0] == 112)),
{
}

/// Parsing a month reads back the one that formatting wrote, by number (padded with zeros or
/// spaces) or by name, whatever follows the text.
pub proof fn lemma_month_read_back(date: DateFields, m: modifier::Month, tail: Seq<u8>)
    requires
        1 <= date.month <= 12,
        m.repr == modifier::MonthRepr::Numerical ==> m.padding != modifier::Padding::Unpadded,
    ensures
        spec_parse_month(month_text(date, m) + tail, m) == Some(
            (month_text(date, m).len(), date.month as int),
        ),
{
    let t = month_text(date, m) + tail;
    let mo = date.month as int;
    if m.repr == modifier::MonthRepr::Numerical {
        lemma_two_digits_read_back(date.month as nat, m.padding, tail);
    } else {
        let name = month_repr_name(mo, m.repr);
        assert(month_text(date, m) == name);
        assert forall|i: int| 0 <= i < name.len() implies t[i] == name[i] by {}
        assert forall|e: int| 1 <= e < mo implies !starts_with_case(t, #[trigger] month_repr_name(e, m.repr), m.case_sensitive) by {
            lemma_month_names_differ(e, mo);
            let other = month_repr_name(e, m.repr);
            assert(other[0] == month_name(e)[0] && other[1] == month_name(e)[1] && other[2]
                == month_name(e)[2]);
            assert(name[0] == month_name(mo)[0] && name[1] == month_name(mo)[1] && name[2]
                == month_name(mo)[2]);
        }
        lemma_first_month_from(t, m.repr, m.case_sensitive, 1, mo);
    }
}

/// The search for a month's name, from `d` on, finds `w` when `w`'s name starts the text and no
/// name between them does.
proof fn lemma_first_month_from(
    t: Seq<u8>,
    repr: modifier::MonthRepr,
    case_sensitive: bool,
    d: int,
    w: int,
)
    requires
        1 <= d <= w <= 12,
        starts_with_case(t, month_repr_name(w, repr), case_sensitive),
        forall|e: int| d <= e < w ==> !starts_with_case(t, #[trigger] month_repr_name(e, repr), case_sensitive),
    ensures
        first_month_match(t, repr, case_sensitive, d) == Some(w),
    decreases w - d,
{
    if d < w {
        lemma_first_month_from(t, repr, case_sensitive, d + 1, w);
    }
}

/// The names of two different months differ in their first three letters, whatever their case.
proof fn lemma_month_names_differ(d: int, w: int)
    requires
        1 <= d <= 12,
        1 <= w <= 12,
        d != w,
    ensures
        crate::parsing::ascii_lowercase(month_name(d)[0]) != crate::parsing::ascii_lowercase(month_name(w)[0])
            || crate::parsing::ascii_lowercase(month_name(d)[1]) != crate::parsing::ascii_lowercase(month_name(w)[1])
            || crate::parsing::ascii_lowercase(month_name(d)[2]) != crate::parsing::ascii_lowercase(month_name(w)[2]),
{
}

/// An hour on the 12-hour clock is shown from 1 to 12 and matches the hour of the day but for
/// whole half days; on the 24-hour clock it is the hour itself. Padded with zeros or spaces, it
/// reads back as two digits whatever follows.
pub proof fn lemma_hour_read_back(time: TimeFields, m: modifier::Hour, tail: Seq<u8>)
    requires
        time.hour < 24,
        m.padding != modifier::Padding::Unpadded,
    ensures
        two_digits(hour_text(time, m) + tail, m.padding) matches Some((k, v)) && k == hour_text(
            time,
            m,
        ).len() && (m.is_12_hour_clock ==> 1 <= v <= 12 && v % 12 == time.hour % 12) && (
        !m.is_12_hour_clock ==> v == time.hour),
{
    let hour = time.hour as nat;
    let value: nat = if !m.is_12_hour_clock {
        hour
    } else if hour == 0 || hour == 12 {
        12
    } else if hour < 12 {
        hour
    } else {
        (hour - 12) as nat
    };
    lemma_two_digits_read_back(value, m.padding, tail);
}

/// Bytes that show, from the left, the digits of `m` at places `w - 1` down to `0` read back as
/// `m`.
proof fn lemma_digits_value_of_digit_bytes(s: Seq<u8>, m: nat)
    requires
        m < pow10(s.len()),
        forall|i: int| 0 <= i < s.len() ==> #[trigger] s[i] == digit_byte(m, (s.len() - 1 - i) as nat),
    ensures
        digits_value(s) == m,
    decreases s.len(),
{
    assert(pow10(0) == 1);
    if s.len() == 0 {
    } else {
        let w = s.len();
        let init = s.drop_last();
        assert(pow10(w) == 10 * pow10((w - 1) as nat));
        assert forall|i: int| 0 <= i < init.len() implies #[trigger] init[i] == digit_byte(
            m / 10,
            (init.len() - 1 - i) as nat,
        ) by {
            let k = (init.len() - 1 - i) as nat;
            assert(init[i] == s[i]);
            lemma_pow10_monotone(0, k);
            vstd::arithmetic::div_mod::lemma_div_denominator(m as int, 10, pow10(k) as int);
            assert(pow10(k + 1) == 10 * pow10(k));
            assert((w - 1 - i) as nat == k + 1);
        }
        lemma_digits_value_of_digit_bytes(init, m / 10);
        assert(s.last() == s[w - 1]);
        assert(m / pow10(0) == m);
        assert(s.last() == (48 + m % 10) as u8);
    }
}

/// Four digits padded with zeros read back as the number they show, whatever follows.
pub proof fn lemma_four_digits_read_back(v: nat, tail: Seq<u8>)
    requires
        v < 10_000,
    ensures
        spec_digits_padded(padded(v, 4, modifier::Padding::Zero) + tail, 4, modifier::Padding::Zero)
            == Some((4nat, v)),
        padded(v, 4, modifier::Padding::Zero).len() == 4,
{
    reveal_with_fuel(pow10, 5);
    lemma_zero_padded_digits(v, 4);
    let text = padded(v, 4, modifier::Padding::Zero);
    let t = text + tail;
    assert forall|j: int| 0 <= j < 4 implies 48 <= #[trigger] t[j] <= 57 by {
        assert(t[j] == text[j]);
    }
    lemma_leading_run(t, 48, 57, 4);
    assert(t.subrange(0, 4) =~= text);
    lemma_digits_value_of_digit_bytes(text, v);
}

/// A year within four digits, written in full with zero padding, reads back as that year,
/// sign and all, whatever follows.
pub proof fn lemma_year_read_back(date: DateFields, m: modifier::Year, tail: Seq<u8>)
    requires
        m.repr == modifier::YearRepr::Full,
        m.padding == modifier::Padding::Zero,
        -10_000 < (if m.iso_week_based { date.iso_year } else { date.year }) < 10_000,
    ensures
        spec_parse_year(year_text(date, m) + tail, m) == Some(
            (year_text(date, m).len(), (if m.iso_week_based { date.iso_year } else { date.year }) as int),
        ),
{
    let y: int = if m.iso_week_based { date.iso_year as int } else { date.year as int };
    let v = crate::arith::abs(y) as nat;
    let digits = padded(v, 4, modifier::Padding::Zero);
    lemma_four_digits_read_back(v, tail);
    assert(v < pow10(4)) by {
        reveal_with_fuel(pow10, 5);
    }
    lemma_zero_padded_digits(v, 4);
    let t = year_text(date, m) + tail;
    if y < 0 || m.sign_is_mandatory {
        let sign: u8 = if y < 0 { 45 } else { 43 };
        assert(year_text(date, m) =~= seq![sign] + digits);
        assert(t[0] == sign);
        assert(t.skip(1) =~= digits + tail);
    } else {
        assert(year_text(date, m) =~= digits);
        assert(t[0] == digits[0]);
        assert(t.skip(0) =~= digits + tail);
    }
}

// endregion laws

// region: helpers
/// What the padded digits read never reaches past the end of the input.
proof fn lemma_digits_padded_len(s: Seq<u8>, n: nat, padding: modifier::Padding)
    requires
        n >= 1,
    ensures
        spec_digits_padded(s, n, padding) matches Some((k, v)) ==> k <= s.len(),
{
    lemma_leading_run(s, 48, 57, 0);
    lemma_leading_run(s, 32, 32, 0);
    if padding == modifier::Padding::Space {
        let spaces = if crate::parsing::leading_spaces(s) < n - 1 {
            crate::parsing::leading_spaces(s)
        } else {
            (n - 1) as nat
        };
        lemma_leading_run(s.skip(spaces as int), 48, 57, 0);
    }
}

/// The number of digits of a fixed subsecond width.
fn subsecond_digit_count_exec(digits: modifier::SubsecondDigits) -> (r: u8)
    ensures
        r == subsecond_digit_count(digits),
        1 <= r <= 9,
{
    match digits {
        modifier::SubsecondDigits::One => 1,
        modifier::SubsecondDigits::Two => 2,
        modifier::SubsecondDigits::Three => 3,
        modifier::SubsecondDigits::Four => 4,
        modifier::SubsecondDigits::Five => 5,
        modifier::SubsecondDigits::Six => 6,
        modifier::SubsecondDigits::Seven => 7,
        modifier::SubsecondDigits::Eight => 8,
        _ => 9,
    }
}

/// The factor that turns `digits` leading digits of a fraction of a second into nanoseconds.
fn scale_for_digits(digits: usize) -> (r: u32)
    requires
        1 <= digits <= 9,
    ensures
        r == pow10((9 - digits) as nat),
{
    reveal_with_fuel(pow10, 10);
    match digits {
        1 => 100_000_000,
        2 => 10_000_000,
        3 => 1_000_000,
        4 => 100_000,
        5 => 10_000,
        6 => 1_000,
        7 => 100,
        8 => 10,
        _ => 1,
    }
}

/// Ten to a sum of powers is the product of the two powers.
pub proof fn lemma_pow10_add(a: nat, b: nat)
    ensures
        pow10(a + b) == pow10(a) * pow10(b),
    decreases a,
{
    if a > 0 {
        lemma_pow10_add((a - 1) as nat, b);
        assert(pow10(a + b) == 10 * pow10((a - 1 + b) as nat));
        assert(pow10(a) == 10 * pow10((a - 1) as nat));
        assert(10 * (pow10((a - 1) as nat) * pow10(b)) == (10 * pow10((a - 1) as nat)) * pow10(b))
            by (nonlinear_arith);
    } else {
        assert(pow10(0) == 1);
        assert(1 * pow10(b) == pow10(b));
    }
}

/// A value of `k` digits, scaled to nine digits, stays below a billion.
proof fn lemma_subsecond_scale(value: nat, k: nat)
    requires
        1 <= k <= 9,
        value < pow10(k),
    ensures
        value * pow10((9 - k) as nat) < 1_000_000_000,
{
    lemma_pow10_add(k, (9 - k) as nat);
    assert(pow10(9) == 1_000_000_000) by {
        reveal_with_fuel(pow10, 10);
    }
    assert(value * pow10((9 - k) as nat) < 1_000_000_000) by (nonlinear_arith)
        requires
            value < pow10(k),
            pow10(k) * pow10((9 - k) as nat) == 1_000_000_000,
    {
    }
}
// endregion helpers

} // verus!
