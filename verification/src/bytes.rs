//! Parsing of binary data.

pub mod num;

pub use self::num::ParseNumber;
use crate::slices::SlicePoint;
use vstd::prelude::*;

verus! {

/// Tracks the location of parsing in a slice of bytes.
pub type BytePoint<'a> = SlicePoint<'a, u8>;

} // verus!
