//! The error types of the library, and the [`Error`] enum that gathers them.

use vstd::prelude::*;

use crate::text::{decimal, itoa_decimal, utf8_lossy, utf8_lossy_string};
use vstd::std_specs::convert::{FromSpec, TryFromSpec};

verus! {

/// An error type indicating that a component provided to a method was out of range, causing a
/// failure.
///
/// Its model (`@`) is the component's name, the inclusive range it must lie in, the value that
/// was given, and whether the range depends on the values of other parameters.
#[derive(Debug, Clone, Copy, PartialEq, Eq, Hash)]
pub struct ComponentRange {
    /// Name of the component.
    pub(crate) name: &'static str,
    /// Minimum allowed value, inclusive.
    pub(crate) minimum: i64,
    /// Maximum allowed value, inclusive.
    pub(crate) maximum: i64,
    /// Value that was provided.
    pub(crate) value: i64,
    /// The minimum and/or maximum value is conditional on the value of other
    /// parameters.
    pub(crate) conditional_range: bool,
}

impl View for ComponentRange {
    type V = (Seq<char>, int, int, int, bool);

    closed spec fn view(&self) -> Self::V {
        (self.name@, self.minimum as int, self.maximum as int, self.value as int, self.conditional_range)
    }
}

impl ComponentRange {
    /// The error for `value`, given for the component `name`, which must lie in
    /// `minimum..=maximum` whatever the other parameters are.
    pub closed spec fn spec_out_of_range(name: &'static str, minimum: i64, maximum: i64, value: i64) -> Self {
        ComponentRange { name, minimum, maximum, value, conditional_range: false }
    }

    /// The model of such an error is its name, its range and the value.
    pub proof fn lemma_out_of_range_view(name: &'static str, minimum: i64, maximum: i64, value: i64)
        ensures
            Self::spec_out_of_range(name, minimum, maximum, value)@ == (
                name@,
                minimum as int,
                maximum as int,
                value as int,
                false,
            ),
    {
    }

    /// An error for `value`, given for the component `name`, which must lie in
    /// `minimum..=maximum` whatever the other parameters are.
    pub(crate) fn out_of_range(name: &'static str, minimum: i64, maximum: i64, value: i64) -> (r: Self)
        ensures
            r@ == (name@, minimum as int, maximum as int, value as int, false),
            r == Self::spec_out_of_range(name, minimum, maximum, value),
    {
        ComponentRange { name, minimum, maximum, value, conditional_range: false }
    }

    /// Obtain the name of the component whose value was out of range.
    pub fn name(self) -> (r: &'static str)
        ensures
            r@ == self@.0,
    {
        self.name
    }

    /// The bytes of the component's name.
    pub open spec fn name_bytes(self) -> Seq<u8> {
        vstd::utf8::encode_utf8(self@.0)
    }

    /// The message of the error: `"{name} must be in the range {minimum}..={maximum}"`, followed
    /// by `", given values of other parameters"` when the range is conditional.
    pub open spec fn message(self) -> Seq<u8> {
        let base = self.name_bytes() + seq![32u8, 109, 117, 115, 116, 32, 98, 101, 32, 105, 110, 32, 116, 104, 101, 32, 114, 97, 110, 103, 101, 32] + decimal(self@.1) + seq![46u8, 46, 61] + decimal(self@.2);
        if self@.4 {
            base + seq![44u8, 32, 103, 105, 118, 101, 110, 32, 118, 97, 108, 117, 101, 115, 32, 111, 102, 32, 111, 116, 104, 101, 114, 32, 112, 97, 114, 97, 109, 101, 116, 101, 114, 115]
        } else {
            base
        }
    }

    /// The error as text.
    pub fn to_string(&self) -> (r: String)
        ensures
            r@ == utf8_lossy(self.message()),
    {
        let mut buf: Vec<u8> = Vec::new();
        crate::formatting::write(&mut buf, self.name.as_bytes());
        crate::formatting::write(&mut buf, &[32u8, 109, 117, 115, 116, 32, 98, 101, 32, 105, 110, 32, 116, 104, 101, 32, 114, 97, 110, 103, 101, 32]);
        crate::formatting::write(&mut buf, itoa_decimal(self.minimum as i128).as_slice());
        crate::formatting::write(&mut buf, &[46u8, 46, 61]);
        crate::formatting::write(&mut buf, itoa_decimal(self.maximum as i128).as_slice());
        if self.conditional_range {
            crate::formatting::write(&mut buf, &[44u8, 32, 103, 105, 118, 101, 110, 32, 118, 97, 108, 117, 101, 115, 32, 111, 102, 32, 111, 116, 104, 101, 114, 32, 112, 97, 114, 97, 109, 101, 116, 101, 114, 115]);
        }
        assert(buf@ =~= self.message());
        utf8_lossy_string(buf.as_slice())
    }
}

/// An error type indicating that a conversion failed because the target type could not store
/// the initial value.
#[derive(Debug, Clone, Copy, PartialEq, Eq)]
pub struct ConversionRange;

/// An error type indicating that a `TryFrom` call failed because the original value was of a
/// different variant.
#[derive(Debug, Clone, Copy, PartialEq, Eq)]
pub struct DifferentVariant;

/// The system's UTC offset could not be determined at the given datetime.
#[derive(Debug, Clone, Copy, PartialEq, Eq)]
pub struct IndeterminateOffset;

/// An error occurred when formatting.
#[non_exhaustive]
#[derive(Debug, Clone, Copy, PartialEq, Eq)]
pub enum Format {
    /// The type being formatted does not contain sufficient information to format a component.
    InsufficientTypeInformation,
}

/// The format description provided was not valid.
#[non_exhaustive]
#[derive(Debug, Clone, PartialEq, Eq)]
pub enum InvalidFormatDescription {
    /// There was a bracket pair that was opened but not closed.
    UnclosedOpeningBracket {
        /// The zero-based index of the opening bracket.
        index: usize,
    },
    /// A component name is not valid.
    InvalidComponentName {
        /// The name of the invalid component name.
        name: String,
        /// The zero-based index the component name starts at.
        index: usize,
    },
    /// A modifier is not valid.
    InvalidModifier {
        /// The value of the invalid modifier.
        value: String,
        /// The zero-based index the modifier starts at.
        index: usize,
    },
    /// A component name is missing.
    MissingComponentName {
        /// The zero-based index where the component name should start.
        index: usize,
    },
}

/// An error that occurred at some stage of parsing.
#[non_exhaustive]
#[derive(Debug, Clone, Copy, PartialEq, Eq)]
pub enum Parse {
    /// The values that were parsed could not form the value that was asked for.
    TryFromParsed(TryFromParsed),
    /// The input did not match the format description.
    ParseFromDescription(ParseFromDescription),
    /// The input was parsed in full by the description, and more input followed.
    UnexpectedTrailingCharacters,
}

/// An error that occurred when parsing the input according to the format description.
#[non_exhaustive]
#[derive(Debug, Clone, Copy, PartialEq, Eq)]
pub enum ParseFromDescription {
    /// A string literal was not what was expected.
    InvalidLiteral,
    /// A dynamic component was not valid. Its name is given.
    InvalidComponent(&'static str),
}

/// An error that occurred when converting the parsed values to the value that was asked for.
#[non_exhaustive]
#[derive(Debug, Clone, Copy, PartialEq, Eq)]
pub enum TryFromParsed {
    /// The values parsed did not include enough information to construct the value.
    InsufficientInformation,
    /// Some component contained an invalid value for the type.
    ComponentRange(ComponentRange),
}

/// A unified error type for anything returned by a method in the library.
#[non_exhaustive]
#[derive(Debug, Clone, PartialEq, Eq)]
pub enum Error {
    /// A conversion failed because the target type could not store the initial value.
    ConversionRange(ConversionRange),
    /// A component was out of range.
    ComponentRange(ComponentRange),
    /// The system's UTC offset could not be determined.
    IndeterminateOffset(IndeterminateOffset),
    /// An error occurred when formatting.
    Format(Format),
    /// The format description provided was not valid.
    InvalidFormatDescription(InvalidFormatDescription),
    /// The input did not match the format description.
    ParseFromDescription(ParseFromDescription),
    /// The input was parsed in full by the description, and more input followed.
    UnexpectedTrailingCharacters,
    /// The values that were parsed could not form the value that was asked for.
    TryFromParsed(TryFromParsed),
    /// A `TryFrom` call failed because the original value was of a different variant.
    DifferentVariant(DifferentVariant),
}

impl DifferentVariant {
    /// The message of the error: `"value was of a different variant than required"`.
    pub open spec fn message(self) -> Seq<u8> {
        seq![118u8, 97, 108, 117, 101, 32, 119, 97, 115, 32, 111, 102, 32, 97, 32, 100, 105, 102, 102, 101, 114, 101, 110, 116, 32, 118, 97, 114, 105, 97, 110, 116, 32, 116, 104, 97, 110, 32, 114, 101, 113, 117, 105, 114, 101, 100]
    }

    /// The error as text.
    pub fn to_string(&self) -> (r: String)
        ensures
            r@ == utf8_lossy(self.message()),
    {
        let mut buf: Vec<u8> = Vec::new();
        crate::formatting::write(&mut buf, &[118u8, 97, 108, 117, 101, 32, 119, 97, 115, 32, 111, 102, 32, 97, 32, 100, 105, 102, 102, 101, 114, 101, 110, 116, 32, 118, 97, 114, 105, 97, 110, 116, 32, 116, 104, 97, 110, 32, 114, 101, 113, 117, 105, 114, 101, 100]);
        utf8_lossy_string(buf.as_slice())
    }
}

impl InvalidFormatDescription {
    /// The message of the error, which names what was wrong and the byte index where it was
    /// found.
    pub open spec fn message(&self) -> Seq<u8> {
        match self {
            InvalidFormatDescription::UnclosedOpeningBracket { index } => seq![117u8, 110, 99, 108, 111, 115, 101, 100, 32, 111, 112, 101, 110, 105, 110, 103, 32, 98, 114, 97, 99, 107, 101, 116, 32, 97, 116, 32, 98, 121, 116, 101, 32, 105, 110, 100, 101, 120, 32] + decimal(
                *index as int,
            ),
            InvalidFormatDescription::InvalidComponentName { name, index } => seq![105u8, 110, 118, 97, 108, 105, 100, 32, 99, 111, 109, 112, 111, 110, 101, 110, 116, 32, 110, 97, 109, 101, 32, 96] + vstd::utf8::encode_utf8(name@) + seq![96u8, 32, 97, 116, 32, 98, 121, 116, 101, 32, 105, 110, 100, 101, 120, 32] + decimal(*index as int),
            InvalidFormatDescription::InvalidModifier { value, index } => seq![105u8, 110, 118, 97, 108, 105, 100, 32, 109, 111, 100, 105, 102, 105, 101, 114, 32, 96] + vstd::utf8::encode_utf8(value@) + seq![96u8, 32, 97, 116, 32, 98, 121, 116, 101, 32, 105, 110, 100, 101, 120, 32] + decimal(*index as int),
            InvalidFormatDescription::MissingComponentName { index } => seq![109u8, 105, 115, 115, 105, 110, 103, 32, 99, 111, 109, 112, 111, 110, 101, 110, 116, 32, 110, 97, 109, 101, 32, 97, 116, 32, 98, 121, 116, 101, 32, 105, 110, 100, 101, 120, 32] + decimal(
                *index as int,
            ),
        }
    }

    /// The error as text.
    pub fn to_string(&self) -> (r: String)
        ensures
            r@ == utf8_lossy(self.message()),
    {
        let mut buf: Vec<u8> = Vec::new();
        match self {
            InvalidFormatDescription::UnclosedOpeningBracket { index } => {
                crate::formatting::write(&mut buf, &[117u8, 110, 99, 108, 111, 115, 101, 100, 32, 111, 112, 101, 110, 105, 110, 103, 32, 98, 114, 97, 99, 107, 101, 116, 32, 97, 116, 32, 98, 121, 116, 101, 32, 105, 110, 100, 101, 120, 32]);
                crate::formatting::write(&mut buf, itoa_decimal(*index as i128).as_slice());
            },
            InvalidFormatDescription::InvalidComponentName { name, index } => {
                crate::formatting::write(&mut buf, &[105u8, 110, 118, 97, 108, 105, 100, 32, 99, 111, 109, 112, 111, 110, 101, 110, 116, 32, 110, 97, 109, 101, 32, 96]);
                crate::formatting::write(&mut buf, name.as_str().as_bytes());
                crate::formatting::write(&mut buf, &[96u8, 32, 97, 116, 32, 98, 121, 116, 101, 32, 105, 110, 100, 101, 120, 32]);
                crate::formatting::write(&mut buf, itoa_decimal(*index as i128).as_slice());
            },
            InvalidFormatDescription::InvalidModifier { value, index } => {
                crate::formatting::write(&mut buf, &[105u8, 110, 118, 97, 108, 105, 100, 32, 109, 111, 100, 105, 102, 105, 101, 114, 32, 96]);
                crate::formatting::write(&mut buf, value.as_str().as_bytes());
                crate::formatting::write(&mut buf, &[96u8, 32, 97, 116, 32, 98, 121, 116, 101, 32, 105, 110, 100, 101, 120, 32]);
                crate::formatting::write(&mut buf, itoa_decimal(*index as i128).as_slice());
            },
            InvalidFormatDescription::MissingComponentName { index } => {
                crate::formatting::write(&mut buf, &[109u8, 105, 115, 115, 105, 110, 103, 32, 99, 111, 109, 112, 111, 110, 101, 110, 116, 32, 110, 97, 109, 101, 32, 97, 116, 32, 98, 121, 116, 101, 32, 105, 110, 100, 101, 120, 32]);
                crate::formatting::write(&mut buf, itoa_decimal(*index as i128).as_slice());
            },
        }
        assert(buf@ =~= self.message());
        utf8_lossy_string(buf.as_slice())
    }
}

impl From<ComponentRange> for Error {
    fn from(original: ComponentRange) -> (r: Self) {
        Error::ComponentRange(original)
    }
}

impl vstd::std_specs::convert::FromSpecImpl<ComponentRange> for Error {
    open spec fn obeys_from_spec() -> bool {
        true
    }

    open spec fn from_spec(original: ComponentRange) -> Self {
        Error::ComponentRange(original)
    }
}

impl TryFrom<Error> for ComponentRange {
    type Error = DifferentVariant;

    fn try_from(err: Error) -> (r: Result<Self, DifferentVariant>) {
        match err {
            Error::ComponentRange(err) => Ok(err),
            _ => Err(DifferentVariant),
        }
    }
}

impl vstd::std_specs::convert::TryFromSpecImpl<Error> for ComponentRange {
    open spec fn obeys_try_from_spec() -> bool {
        true
    }

    open spec fn try_from_spec(err: Error) -> Result<Self, DifferentVariant> {
        match err {
            Error::ComponentRange(err) => Ok(err),
            _ => Err(DifferentVariant),
        }
    }
}

impl From<InvalidFormatDescription> for Error {
    fn from(original: InvalidFormatDescription) -> (r: Self) {
        Error::InvalidFormatDescription(original)
    }
}

impl vstd::std_specs::convert::FromSpecImpl<InvalidFormatDescription> for Error {
    open spec fn obeys_from_spec() -> bool {
        true
    }

    open spec fn from_spec(original: InvalidFormatDescription) -> Self {
        Error::InvalidFormatDescription(original)
    }
}

impl TryFrom<Error> for InvalidFormatDescription {
    type Error = DifferentVariant;

    fn try_from(err: Error) -> (r: Result<Self, DifferentVariant>) {
        match err {
            Error::InvalidFormatDescription(err) => Ok(err),
            _ => Err(DifferentVariant),
        }
    }
}

impl vstd::std_specs::convert::TryFromSpecImpl<Error> for InvalidFormatDescription {
    open spec fn obeys_try_from_spec() -> bool {
        true
    }

    open spec fn try_from_spec(err: Error) -> Result<Self, DifferentVariant> {
        match err {
            Error::InvalidFormatDescription(err) => Ok(err),
            _ => Err(DifferentVariant),
        }
    }
}

impl From<DifferentVariant> for Error {
    fn from(err: DifferentVariant) -> (r: Self) {
        Error::DifferentVariant(err)
    }
}

impl vstd::std_specs::convert::FromSpecImpl<DifferentVariant> for Error {
    open spec fn obeys_from_spec() -> bool {
        true
    }

    open spec fn from_spec(err: DifferentVariant) -> Self {
        Error::DifferentVariant(err)
    }
}

impl TryFrom<Error> for DifferentVariant {
    type Error = Self;

    fn try_from(err: Error) -> (r: Result<Self, Self>) {
        match err {
            Error::DifferentVariant(err) => Ok(err),
            _ => Err(DifferentVariant),
        }
    }
}

impl vstd::std_specs::convert::TryFromSpecImpl<Error> for DifferentVariant {
    open spec fn obeys_try_from_spec() -> bool {
        true
    }

    open spec fn try_from_spec(err: Error) -> Result<Self, Self> {
        match err {
            Error::DifferentVariant(err) => Ok(err),
            _ => Err(DifferentVariant),
        }
    }
}

impl From<Parse> for Error {
    fn from(err: Parse) -> (r: Self) {
        match err {
            Parse::TryFromParsed(err) => Error::TryFromParsed(err),
            Parse::ParseFromDescription(err) => Error::ParseFromDescription(err),
            Parse::UnexpectedTrailingCharacters => Error::UnexpectedTrailingCharacters,
        }
    }
}

impl vstd::std_specs::convert::FromSpecImpl<Parse> for Error {
    open spec fn obeys_from_spec() -> bool {
        true
    }

    open spec fn from_spec(err: Parse) -> Self {
        match err {
            Parse::TryFromParsed(err) => Error::TryFromParsed(err),
            Parse::ParseFromDescription(err) => Error::ParseFromDescription(err),
            Parse::UnexpectedTrailingCharacters => Error::UnexpectedTrailingCharacters,
        }
    }
}

impl From<ParseFromDescription> for Parse {
    fn from(err: ParseFromDescription) -> (r: Self) {
        Parse::ParseFromDescription(err)
    }
}

impl vstd::std_specs::convert::FromSpecImpl<ParseFromDescription> for Parse {
    open spec fn obeys_from_spec() -> bool {
        true
    }

    open spec fn from_spec(err: ParseFromDescription) -> Self {
        Parse::ParseFromDescription(err)
    }
}

impl From<TryFromParsed> for Parse {
    fn from(err: TryFromParsed) -> (r: Self) {
        Parse::TryFromParsed(err)
    }
}

impl vstd::std_specs::convert::FromSpecImpl<TryFromParsed> for Parse {
    open spec fn obeys_from_spec() -> bool {
        true
    }

    open spec fn from_spec(err: TryFromParsed) -> Self {
        Parse::TryFromParsed(err)
    }
}

impl From<ComponentRange> for TryFromParsed {
    fn from(err: ComponentRange) -> (r: Self) {
        TryFromParsed::ComponentRange(err)
    }
}

impl vstd::std_specs::convert::FromSpecImpl<ComponentRange> for TryFromParsed {
    open spec fn obeys_from_spec() -> bool {
        true
    }

    open spec fn from_spec(err: ComponentRange) -> Self {
        TryFromParsed::ComponentRange(err)
    }
}

/// Converting an error into [`Error`] and back with `TryFrom` gives it unchanged, for each of the
/// three error types that convert both ways.
pub proof fn lemma_error_roundtrip(
    range: ComponentRange,
    description: InvalidFormatDescription,
    variant: DifferentVariant,
)
    ensures
        <ComponentRange as TryFromSpec<Error>>::try_from_spec(
            <Error as FromSpec<ComponentRange>>::from_spec(range),
        ) == Ok::<ComponentRange, DifferentVariant>(range),
        <InvalidFormatDescription as TryFromSpec<Error>>::try_from_spec(
            <Error as FromSpec<InvalidFormatDescription>>::from_spec(description),
        ) == Ok::<InvalidFormatDescription, DifferentVariant>(description),
        <DifferentVariant as TryFromSpec<Error>>::try_from_spec(
            <Error as FromSpec<DifferentVariant>>::from_spec(variant),
        ) == Ok::<DifferentVariant, DifferentVariant>(variant),
{
}

/// An [`Error`] of another variant is refused with `DifferentVariant`.
pub proof fn lemma_error_other_variant(err: Error)
    ensures
        !(err is ComponentRange) ==> <ComponentRange as TryFromSpec<Error>>::try_from_spec(err)
            == Err::<ComponentRange, DifferentVariant>(DifferentVariant),
        !(err is InvalidFormatDescription) ==> <InvalidFormatDescription as TryFromSpec<
            Error,
        >>::try_from_spec(err) == Err::<InvalidFormatDescription, DifferentVariant>(
            DifferentVariant,
        ),
        !(err is DifferentVariant) ==> <DifferentVariant as TryFromSpec<Error>>::try_from_spec(err)
            == Err::<DifferentVariant, DifferentVariant>(DifferentVariant),
{
}

} // verus!
