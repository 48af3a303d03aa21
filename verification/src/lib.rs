//! Character-level parsers: single characters, line endings, and runs of
//! alphabetic, numeric, hexadecimal, octal, alphanumeric and blank items, over
//! byte slices and string slices, in streaming and complete mode.
use vstd::prelude::*;

pub mod character;
pub mod error;
pub mod input;
pub mod laws;

verus! {

} // verus!
