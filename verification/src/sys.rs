//! The system's UTC offset, on systems whose offset cannot be looked up.

use vstd::prelude::*;

use crate::utc_offset::UtcOffset;

verus! {

/// The system's UTC offset at the moment `unix_timestamp` (seconds since the Unix epoch). This
/// system offers no way to look it up, so it is never known.
pub fn local_offset_at(unix_timestamp: i64) -> (r: Option<UtcOffset>)
    ensures
        r is None,
{
    None
}

} // verus!
