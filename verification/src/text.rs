//! Text as bytes: decimal digits, byte comparison, and the outside calls that turn integers and
//! bytes into text.

use vstd::prelude::*;

verus! {

/// The ASCII decimal digits of a natural number, most significant first, without leading zeros
/// (`"0"` for zero).
pub open spec fn decimal_digits(n: nat) -> Seq<u8>
    decreases n,
{
    if n < 10 {
        seq![(48 + n) as u8]
    } else {
        decimal_digits(n / 10).push((48 + n % 10) as u8)
    }
}

/// The ASCII decimal text of an integer: its digits, after a `-` (byte 45) when it is negative.
pub open spec fn decimal(i: int) -> Seq<u8> {
    if i < 0 {
        seq![45u8] + decimal_digits((-i) as nat)
    } else {
        decimal_digits(i as nat)
    }
}

/// What `String::from_utf8_lossy` makes of the bytes: the text they encode as UTF-8, with each
/// invalid sequence replaced by U+FFFD.
pub uninterp spec fn utf8_lossy(bytes: Seq<u8>) -> Seq<char>;

/// Whether two byte strings are equal.
pub fn bytes_eq(a: &[u8], b: &[u8]) -> (r: bool)
    ensures
        r == (a@ == b@),
{
    if a.len() != b.len() {
        return false;
    }
    let mut i: usize = 0;
    while i < a.len()
        invariant
            a@.len() == b@.len(),
            0 <= i <= a@.len(),
            forall|j: int| 0 <= j < i ==> a@[j] == b@[j],
        decreases a@.len() - i,
    {
        if a[i] != b[i] {
            return false;
        }
        i = i + 1;
    }
    assert(a@ =~= b@);
    true
}

/// Calls `String::from_utf8_lossy` on the bytes and takes ownership of the text it gives back.
/// Claimed: the text is `utf8_lossy` of the bytes, a function of the bytes alone; and, as std
/// documents, bytes that are valid UTF-8 give back the text they encode.
#[verifier::external_body]
pub fn utf8_lossy_string(bytes: &[u8]) -> (r: String)
    ensures
        r@ == utf8_lossy(bytes@),
        vstd::utf8::valid_utf8(bytes@) ==> r@ == vstd::utf8::decode_utf8(bytes@),
{
    String::from_utf8_lossy(bytes).into_owned()
}

/// Calls `itoa::Buffer::format` on the integer and copies the text it gives back as bytes.
/// Claimed: the text is the integer in decimal, with a leading `-` when negative and no leading
/// zeros.
#[verifier::external_body]
pub fn itoa_decimal(value: i128) -> (r: Vec<u8>)
    ensures
        r@ == decimal(value as int),
{
    itoa::Buffer::new().format(value).as_bytes().to_vec()
}

} // verus!
