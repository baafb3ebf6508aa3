//! Description of how types should be formatted: the components of a description and the
//! modifiers that refine them.

pub mod component;
pub mod modifier;

pub use component::Component;

use vstd::prelude::*;

verus! {

/// A complete description of how to format and parse a type.
#[non_exhaustive]
#[derive(Debug, Clone, Copy, PartialEq, Eq)]
pub enum FormatItem<'a> {
    /// Bytes that are formatted as-is.
    Literal(&'a [u8]),
    /// A minimal representation of a single non-literal item.
    Component(Component),
}

} // verus!
