//! The errors of the server core.
use vstd::prelude::*;

verus! {

/// Why an operation of the server core failed.
#[derive(Clone, Copy, Debug, PartialEq, Eq, Structural)]
pub enum Error {
    /// An entry path that is not absolute.
    InvalidEntry,
    /// A query or edit of a path that the overlay does not hold.
    FileMissing,
    /// A ranged edit whose range does not lie in the current text.
    InvalidRange,
    /// The session's execution context is gone.
    ChannelClosed,
}

} // verus!
