//! The ways in which filtering an image can fail.

use vstd::prelude::*;

verus! {

/// Why no output was produced. A failed call returns nothing else: there is
/// no partly filtered image.
#[derive(Clone, Copy, Debug, PartialEq, Eq, Structural)]
pub enum FilterError {
    /// The input bytes are empty, cut short, or in no format that is
    /// recognised.
    Decode,
    /// A parameter lies outside the domain of its filter.
    InvalidParameter,
    /// The image could not be written: it has no pixels, or the encoder
    /// failed.
    Encode,
}

} // verus!
