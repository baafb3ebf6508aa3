//! Parsing of bytes: the combinators and the integer parsing that the parsers share.

pub mod component;
pub mod parsed;

use vstd::prelude::*;

use crate::format_description::modifier::Padding;
use crate::formatting::pow10;
use crate::text::decimal_digits;

verus! {

/// An item that has been parsed. Represented as a `(remaining, value)` pair.
#[derive(Debug, Clone, Copy, PartialEq, Eq)]
pub struct ParsedItem<'a, T>(pub &'a [u8], pub T);

/// Consume exactly one space or tab.
pub fn wsp(input: &[u8]) -> (r: Option<ParsedItem<'_, ()>>)
    ensures
        r is Some <==> input@.len() > 0 && (input@[0] == 32 || input@[0] == 9),
        r matches Some(item) ==> item.0@ == input@.drop_first(),
{
    if input.len() > 0 && (input[0] == 32u8 || input[0] == 9u8) {
        let rest = vstd::slice::slice_subrange(input, 1, input.len());
        assert(rest@ =~= input@.drop_first());
        Some(ParsedItem(rest, ()))
    } else {
        None
    }
}

/// The value of bytes read as decimal digits, most significant first, each byte counting as its
/// distance above `b'0'`.
pub open spec fn digits_value(bytes: Seq<u8>) -> nat
    decreases bytes.len(),
{
    if bytes.len() == 0 {
        0
    } else {
        digits_value(bytes.drop_last()) * 10 + (bytes.last() - 48) as nat
    }
}

/// Reading more digits never gives a smaller value.
pub proof fn lemma_digits_value_monotone(bytes: Seq<u8>, i: int, j: int)
    requires
        0 <= i <= j <= bytes.len(),
        forall|k: int| 0 <= k < bytes.len() ==> bytes[k] >= 48,
    ensures
        digits_value(bytes.subrange(0, i)) <= digits_value(bytes.subrange(0, j)),
    decreases j - i,
{
    if i < j {
        lemma_digits_value_monotone(bytes, i, j - 1);
        assert(bytes.subrange(0, j).drop_last() == bytes.subrange(0, j - 1));
    }
}

/// Whether every byte is at least `b'0'`, so that its distance above `b'0'` is a digit value.
pub open spec fn no_byte_below_zero(bytes: Seq<u8>) -> bool {
    forall|k: int| 0 <= k < bytes.len() ==> bytes[k] >= 48
}

/// Parsing reads back what formatting writes: the decimal text of a number consists of digits,
/// and their value is the number.
pub proof fn lemma_parse_decimal_digits(n: nat)
    ensures
        no_byte_below_zero(decimal_digits(n)),
        digits_value(decimal_digits(n)) == n,
    decreases n,
{
    if n >= 10 {
        lemma_parse_decimal_digits(n / 10);
        let prefix = decimal_digits(n / 10);
        assert(decimal_digits(n).drop_last() == prefix);
        assert(decimal_digits(n).last() == (48 + n % 10) as u8);
        assert((decimal_digits(n).last() - 48) as nat == n % 10);
        assert(n == (n / 10) * 10 + n % 10);
        assert(digits_value(decimal_digits(n)) == digits_value(prefix) * 10 + n % 10);
    } else {
        assert(decimal_digits(n).drop_last() =~= Seq::<u8>::empty());
        assert(decimal_digits(n).last() == (48 + n) as u8);
        assert(digits_value(decimal_digits(n)) == digits_value(Seq::<u8>::empty()) * 10 + n);
    }
}

/// An unsigned integer type that can be parsed from decimal digits.
pub trait Integer: Sized {
    /// The value as a natural number.
    spec fn value(self) -> nat;

    /// The largest value of the type.
    spec fn max_value() -> nat;

    /// Parse the bytes as decimal digits, returning `None` if the value does not fit in the type.
    fn parse_bytes(src: &[u8]) -> (r: Option<Self>)
        requires
            no_byte_below_zero(src@),
        ensures
            r is Some <==> digits_value(src@) <= Self::max_value(),
            r matches Some(v) ==> v.value() == digits_value(src@),
    ;
}

/// Equivalent of `foo.parse()` for slices.
pub trait IntegerParseBytes<T: Integer> {
    /// The bytes of the slice.
    spec fn bytes(&self) -> Seq<u8>;

    /// Parse the bytes as decimal digits, returning `None` if the value does not fit in `T`.
    fn parse_bytes(&self) -> (r: Option<T>)
        requires
            no_byte_below_zero(self.bytes()),
        ensures
            r is Some <==> digits_value(self.bytes()) <= T::max_value(),
            r matches Some(v) ==> v.value() == digits_value(self.bytes()),
    ;
}

impl<T: Integer> IntegerParseBytes<T> for [u8] {
    open spec fn bytes(&self) -> Seq<u8> {
        self@
    }

    fn parse_bytes(&self) -> (r: Option<T>) {
        T::parse_bytes(self)
    }
}

impl Integer for u8 {
    open spec fn value(self) -> nat {
        self as nat
    }

    open spec fn max_value() -> nat {
        u8::MAX as nat
    }

    fn parse_bytes(src: &[u8]) -> (r: Option<Self>) {
        let mut result: u8 = 0;
        let mut i: usize = 0;
        while i < src.len()
            invariant
                no_byte_below_zero(src@),
                0 <= i <= src@.len(),
                result == digits_value(src@.subrange(0, i as int)),
            decreases src@.len() - i,
        {
            let c = src[i];
            proof {
                assert(src@.subrange(0, i + 1).drop_last() == src@.subrange(0, i as int));
                lemma_digits_value_monotone(src@, i + 1, src@.len() as int);
                assert(src@.subrange(0, src@.len() as int) == src@);
            }
            result = match result.checked_mul(10) {
                Some(scaled) => match scaled.checked_add((c - 48u8) as u8) {
                    Some(next) => next,
                    None => return None,
                },
                None => return None,
            };
            i = i + 1;
        }
        assert(src@.subrange(0, src@.len() as int) == src@);
        Some(result)
    }
}

impl Integer for u16 {
    open spec fn value(self) -> nat {
        self as nat
    }

    open spec fn max_value() -> nat {
        u16::MAX as nat
    }

    fn parse_bytes(src: &[u8]) -> (r: Option<Self>) {
        let mut result: u16 = 0;
        let mut i: usize = 0;
        while i < src.len()
            invariant
                no_byte_below_zero(src@),
                0 <= i <= src@.len(),
                result == digits_value(src@.subrange(0, i as int)),
            decreases src@.len() - i,
        {
            let c = src[i];
            proof {
                assert(src@.subrange(0, i + 1).drop_last() == src@.subrange(0, i as int));
                lemma_digits_value_monotone(src@, i + 1, src@.len() as int);
                assert(src@.subrange(0, src@.len() as int) == src@);
            }
            result = match result.checked_mul(10) {
                Some(scaled) => match scaled.checked_add((c - 48u8) as u16) {
                    Some(next) => next,
                    None => return None,
                },
                None => return None,
            };
            i = i + 1;
        }
        assert(src@.subrange(0, src@.len() as int) == src@);
        Some(result)
    }
}

impl Integer for u32 {
    open spec fn value(self) -> nat {
        self as nat
    }

    open spec fn max_value() -> nat {
        u32::MAX as nat
    }

    fn parse_bytes(src: &[u8]) -> (r: Option<Self>) {
        let mut result: u32 = 0;
        let mut i: usize = 0;
        while i < src.len()
            invariant
                no_byte_below_zero(src@),
                0 <= i <= src@.len(),
                result == digits_value(src@.subrange(0, i as int)),
            decreases src@.len() - i,
        {
            let c = src[i];
            proof {
                assert(src@.subrange(0, i + 1).drop_last() == src@.subrange(0, i as int));
                lemma_digits_value_monotone(src@, i + 1, src@.len() as int);
                assert(src@.subrange(0, src@.len() as int) == src@);
            }
            result = match result.checked_mul(10) {
                Some(scaled) => match scaled.checked_add((c - 48u8) as u32) {
                    Some(next) => next,
                    None => return None,
                },
                None => return None,
            };
            i = i + 1;
        }
        assert(src@.subrange(0, src@.len() as int) == src@);
        Some(result)
    }
}

// region: combinators
/// The number of bytes at the start of `s` that lie in `lo..=hi`.
pub open spec fn leading_run(s: Seq<u8>, lo: u8, hi: u8) -> nat
    decreases s.len(),
{
    if s.len() > 0 && lo <= s[0] <= hi {
        1 + leading_run(s.drop_first(), lo, hi)
    } else {
        0
    }
}

/// The number of ASCII digits that `s` starts with.
pub open spec fn leading_digits(s: Seq<u8>) -> nat {
    leading_run(s, 48, 57)
}

/// The number of spaces that `s` starts with.
pub open spec fn leading_spaces(s: Seq<u8>) -> nat {
    leading_run(s, 32, 32)
}

/// A run never reaches past the end, and the bytes it covers lie in the range. When the first
/// `k` bytes lie in the range, the run is at least `k` long, and exactly `k` long when the
/// byte after them does not or there is none.
pub proof fn lemma_leading_run(s: Seq<u8>, lo: u8, hi: u8, k: int)
    requires
        0 <= k <= s.len(),
        forall|j: int| 0 <= j < k ==> lo <= #[trigger] s[j] <= hi,
    ensures
        k <= leading_run(s, lo, hi) <= s.len(),
        forall|j: int| 0 <= j < leading_run(s, lo, hi) ==> lo <= #[trigger] s[j] <= hi,
        (k == s.len() || !(lo <= s[k] <= hi)) ==> leading_run(s, lo, hi) == k,
    decreases k,
{
    if k == 0 {
        lemma_leading_run_bounds(s, lo, hi);
    } else {
        let t = s.drop_first();
        assert forall|j: int| 0 <= j < k - 1 implies lo <= #[trigger] t[j] <= hi by {
            assert(t[j] == s[j + 1]);
        }
        lemma_leading_run(t, lo, hi, k - 1);
        assert forall|j: int| 0 <= j < leading_run(s, lo, hi) implies lo <= #[trigger] s[j] <= hi by {
            if j > 0 {
                assert(s[j] == t[j - 1]);
            }
        }
        if k < s.len() {
            assert(s[k] == t[k - 1]);
        }
    }
}

/// A run never reaches past the end, and the bytes it covers lie in the range.
proof fn lemma_leading_run_bounds(s: Seq<u8>, lo: u8, hi: u8)
    ensures
        leading_run(s, lo, hi) <= s.len(),
        forall|j: int| 0 <= j < leading_run(s, lo, hi) ==> lo <= #[trigger] s[j] <= hi,
    decreases s.len(),
{
    if s.len() > 0 && lo <= s[0] <= hi {
        let t = s.drop_first();
        lemma_leading_run_bounds(t, lo, hi);
        assert forall|j: int| 0 <= j < leading_run(s, lo, hi) implies lo <= #[trigger] s[j] <= hi by {
            if j > 0 {
                assert(s[j] == t[j - 1]);
            }
        }
    }
}

/// Ten to a larger power is larger.
pub proof fn lemma_pow10_monotone(a: nat, b: nat)
    requires
        a <= b,
    ensures
        1 <= pow10(a) <= pow10(b),
    decreases b,
{
    if b > 0 {
        if a < b {
            lemma_pow10_monotone(a, (b - 1) as nat);
        } else {
            lemma_pow10_monotone((a - 1) as nat, (b - 1) as nat);
        }
    }
}

/// The value of `k` decimal digits is below ten to the `k`.
pub proof fn lemma_digits_value_bound(bytes: Seq<u8>)
    requires
        forall|j: int| 0 <= j < bytes.len() ==> 48 <= #[trigger] bytes[j] <= 57,
    ensures
        digits_value(bytes) < pow10(bytes.len()),
    decreases bytes.len(),
{
    if bytes.len() > 0 {
        let init = bytes.drop_last();
        assert forall|j: int| 0 <= j < init.len() implies 48 <= #[trigger] init[j] <= 57 by {
            assert(init[j] == bytes[j]);
        }
        lemma_digits_value_bound(init);
        assert(bytes.last() == bytes[bytes.len() - 1]);
        assert(digits_value(bytes) < pow10(bytes.len())) by (nonlinear_arith)
            requires
                digits_value(bytes) == digits_value(init) * 10 + (bytes.last() - 48) as nat,
                digits_value(init) + 1 <= pow10(init.len()),
                (bytes.last() - 48) as nat <= 9,
                pow10(bytes.len()) == 10 * pow10(init.len()),
        ;
    }
}

/// The digits that `n_to_m_digits` reads: at least `n` and as many as there are up to `m`.
/// The result is how many bytes were read and their value.
pub open spec fn spec_n_to_m_digits(s: Seq<u8>, n: nat, m: nat) -> Option<(nat, nat)> {
    let d = leading_digits(s);
    if d < n {
        None
    } else {
        let k = if d < m {
            d
        } else {
            m
        };
        Some((k, digits_value(s.subrange(0, k as int))))
    }
}

/// The digits that `exactly_n_digits_padded` reads for a field `n` wide. Without padding, one to
/// `n` digits; with zeros, exactly `n` digits; with spaces, up to `n - 1` spaces and then
/// digits for the rest of the width. The result is how many bytes were read and the value of
/// the digits.
pub open spec fn spec_digits_padded(s: Seq<u8>, n: nat, padding: Padding) -> Option<(nat, nat)> {
    match padding {
        Padding::Unpadded => spec_n_to_m_digits(s, 1, n),
        Padding::Zero => spec_n_to_m_digits(s, n, n),
        Padding::Space => {
            let spaces = if leading_spaces(s) < n - 1 {
                leading_spaces(s)
            } else {
                (n - 1) as nat
            };
            match spec_n_to_m_digits(s.skip(spaces as int), (n - spaces) as nat, (n - spaces) as nat) {
                Some((k, v)) => Some((spaces + k, v)),
                None => None,
            }
        },
    }
}

/// Consume between `n` and `m` digits, inclusive, and parse them as a number.
pub fn n_to_m_digits<T: Integer>(input: &[u8], n: u8, m: u8) -> (r: Option<ParsedItem<'_, T>>)
    requires
        n <= m,
        pow10(m as nat) <= T::max_value() + 1,
    ensures
        match spec_n_to_m_digits(input@, n as nat, m as nat) {
            None => r is None,
            Some((k, v)) => r matches Some(item) && item.0@ == input@.skip(k as int) && item.1.value() == v,
        },
        r matches Some(item) ==> item.1.value() < pow10(m as nat),
{
    let mut k: usize = 0;
    while k < m as usize && k < input.len() && 48u8 <= input[k] && input[k] <= 57u8
        invariant
            k <= m,
            k <= input@.len(),
            forall|j: int| 0 <= j < k ==> 48 <= #[trigger] input@[j] <= 57,
        decreases m - k,
    {
        k = k + 1;
    }
    proof { lemma_leading_run(input@, 48, 57, k as int); }
    if k < n as usize {
        return None;
    }
    let digits = vstd::slice::slice_subrange(input, 0, k);
    proof {
        assert forall|j: int| 0 <= j < digits@.len() implies 48 <= #[trigger] digits@[j] <= 57 by {
            assert(digits@[j] == input@[j]);
        }
        lemma_digits_value_bound(digits@);
        lemma_pow10_monotone(k as nat, m as nat);
    }
    let rest = vstd::slice::slice_subrange(input, k, input.len());
    assert(rest@ =~= input@.skip(k as int));
    match T::parse_bytes(digits) {
        Some(value) => Some(ParsedItem(rest, value)),
        None => None,
    }
}

/// Consume exactly `n` digits, allowing for the padding the modifier asks for.
pub fn exactly_n_digits_padded<T: Integer>(input: &[u8], n: u8, padding: Padding) -> (r: Option<
    ParsedItem<'_, T>,
>)
    requires
        1 <= n,
        pow10(n as nat) <= T::max_value() + 1,
    ensures
        match spec_digits_padded(input@, n as nat, padding) {
            None => r is None,
            Some((k, v)) => r matches Some(item) && item.0@ == input@.skip(k as int) && item.1.value() == v,
        },
        r matches Some(item) ==> item.1.value() < pow10(n as nat),
{
    match padding {
        Padding::Unpadded => n_to_m_digits::<T>(input, 1, n),
        Padding::Zero => n_to_m_digits::<T>(input, n, n),
        Padding::Space => {
            let mut spaces: usize = 0;
            while spaces + 1 < n as usize && spaces < input.len() && input[spaces] == 32u8
                invariant
                    spaces < n,
                    spaces <= input@.len(),
                    forall|j: int| 0 <= j < spaces ==> 32 <= #[trigger] input@[j] <= 32,
                decreases n - spaces,
            {
                spaces = spaces + 1;
            }
            proof {
                lemma_leading_run(input@, 32, 32, spaces as int);
                lemma_pow10_monotone((n - spaces) as nat, n as nat);
            }
            let rest = vstd::slice::slice_subrange(input, spaces, input.len());
            assert(rest@ =~= input@.skip(spaces as int));
            let width = n - spaces as u8;
            assert(spaces == if leading_spaces(input@) < n - 1 {
                leading_spaces(input@)
            } else {
                (n - 1) as nat
            });
            match n_to_m_digits::<T>(rest, width, width) {
                Some(item) => {
                    proof {
                        let k = spec_n_to_m_digits(rest@, width as nat, width as nat).unwrap().0;
                        lemma_leading_run(rest@, 48, 57, 0);
                        assert(input@.skip(spaces as int).skip(k as int) =~= input@.skip(spaces + k));
                    }
                    Some(item)
                },
                None => None,
            }
        },
    }
}
/// The byte with ASCII capital letters made small.
pub open spec fn ascii_lowercase(b: u8) -> u8 {
    if 65 <= b <= 90 {
        (b + 32) as u8
    } else {
        b
    }
}

/// Whether `s` starts with `prefix`, comparing bytes exactly or, when case does not matter,
/// taking an ASCII letter of either case as the same letter.
pub open spec fn starts_with_case(s: Seq<u8>, prefix: Seq<u8>, case_sensitive: bool) -> bool {
    &&& prefix.len() <= s.len()
    &&& forall|i: int|
        0 <= i < prefix.len() ==> if case_sensitive {
            s[i] == prefix[i]
        } else {
            ascii_lowercase(s[i]) == ascii_lowercase(prefix[i])
        }
}

/// Make an ASCII capital letter small; leave any other byte as it is.
fn to_ascii_lowercase(b: u8) -> (r: u8)
    ensures
        r == ascii_lowercase(b),
{
    if 65u8 <= b && b <= 90u8 {
        b + 32
    } else {
        b
    }
}

/// Whether the input starts with `prefix`, with or without regard to the case of ASCII letters.
pub fn starts_with(input: &[u8], prefix: &[u8], case_sensitive: bool) -> (r: bool)
    ensures
        r == starts_with_case(input@, prefix@, case_sensitive),
{
    if prefix.len() > input.len() {
        return false;
    }
    let mut i: usize = 0;
    while i < prefix.len()
        invariant
            prefix@.len() <= input@.len(),
            0 <= i <= prefix@.len(),
            forall|j: int|
                0 <= j < i ==> if case_sensitive {
                    input@[j] == prefix@[j]
                } else {
                    ascii_lowercase(input@[j]) == ascii_lowercase(prefix@[j])
                },
        decreases prefix@.len() - i,
    {
        let same = if case_sensitive {
            input[i] == prefix[i]
        } else {
            to_ascii_lowercase(input[i]) == to_ascii_lowercase(prefix[i])
        };
        if !same {
            return false;
        }
        i = i + 1;
    }
    true
}

/// Consume the input after a prefix that it is known to start with.
pub fn skip_prefix<'a>(input: &'a [u8], len: usize) -> (r: &'a [u8])
    requires
        len <= input@.len(),
    ensures
        r@ == input@.skip(len as int),
{
    let rest = vstd::slice::slice_subrange(input, len, input.len());
    assert(rest@ =~= input@.skip(len as int));
    rest
}

/// The sign that `s` starts with, if it starts with `+` or `-`.
pub open spec fn leading_sign(s: Seq<u8>) -> Option<u8> {
    if s.len() > 0 && (s[0] == 43 || s[0] == 45) {
        Some(s[0])
    } else {
        None
    }
}

/// Consume a `+` or a `-`, if the input starts with one; the sign is returned if there was one.
pub fn opt_sign(input: &[u8]) -> (r: ParsedItem<'_, Option<u8>>)
    ensures
        r.1 == leading_sign(input@),
        r.0@ == input@.skip(if r.1 is Some { 1int } else { 0int }),
{
    if input.len() > 0 && (input[0] == 43u8 || input[0] == 45u8) {
        ParsedItem(skip_prefix(input, 1), Some(input[0]))
    } else {
        assert(input@.skip(0) =~= input@);
        ParsedItem(input, None)
    }
}
// endregion combinators

} // verus!
