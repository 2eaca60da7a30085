//! Sorting photographs into date-named folders: choosing the date that
//! represents a file and a destination that never overwrites another file.

pub mod batch;
pub mod metadata;
pub mod placement;
pub mod stamp;

use vstd::prelude::*;

verus! {

/// Why one file could not be placed.
#[derive(Clone, Copy, Debug, PartialEq, Eq, Structural)]
pub enum SortError {
    /// Neither the metadata nor the file system gave a date.
    NoTimestamp,
    /// The folder pattern could not render the date.
    BadPattern,
    /// The file name has no stem to disambiguate.
    Unresolvable,
}

} // verus!
