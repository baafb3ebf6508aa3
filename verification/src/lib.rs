//! Date and time arithmetic: signed durations and UTC offsets, the component and modifier
//! vocabulary of format descriptions, and the formatting and parsing of those components as
//! bytes.

pub mod arith;
pub mod duration;
pub mod error;
pub mod format_description;
pub mod formatting;
pub mod parsing;
pub mod std_duration;
pub mod sys;
pub mod text;
pub mod utc_offset;

pub use duration::Duration;
pub use error::Error;
pub use utc_offset::UtcOffset;
