//! The failures that the toolkit reports.

use vstd::prelude::*;

verus! {

/// Why an operation was refused.
#[derive(Clone, Copy, Debug, PartialEq, Eq, Structural)]
pub enum Error {
    /// A pixel buffer of the requested dimensions cannot be addressed.
    TooLarge,
    /// A coordinate or a region lies outside the image it addresses.
    OutOfBounds,
    /// The images handed to a filter do not have the shape it works on.
    Mismatch,
}

} // verus!
