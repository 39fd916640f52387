//! Points compared: by how far they stand into the input, never by the
//! input that is left.

use crate::slices::SlicePoint;
use crate::strings::StringPoint;
use std::cmp::Ordering;
use vstd::prelude::*;
use vstd::std_specs::cmp::{PartialEqSpecImpl, PartialOrdSpecImpl};

verus! {

/// How two offsets compare.
pub open spec fn offsets_compared(a: usize, b: usize) -> Ordering {
    if a < b {
        Ordering::Less
    } else if a == b {
        Ordering::Equal
    } else {
        Ordering::Greater
    }
}

/// How two offsets compare.
fn compare_offsets(a: usize, b: usize) -> (r: Ordering)
    ensures
        r == offsets_compared(a, b),
{
    if a < b {
        Ordering::Less
    } else if a == b {
        Ordering::Equal
    } else {
        Ordering::Greater
    }
}

impl<'a, T> PartialEq for SlicePoint<'a, T> {
    /// Two points over slices are equal where their offsets are.
    #[inline]
    fn eq(&self, other: &Self) -> (r: bool) {
        self.offset == other.offset
    }
}

impl<'a, T> PartialEqSpecImpl for SlicePoint<'a, T> {
    open spec fn obeys_eq_spec() -> bool {
        true
    }

    open spec fn eq_spec(&self, other: &Self) -> bool {
        self.offset == other.offset
    }
}

impl<'a, T> Eq for SlicePoint<'a, T> {

}

impl<'a, T> PartialOrd for SlicePoint<'a, T> {
    #[inline]
    fn partial_cmp(&self, other: &Self) -> (r: Option<Ordering>) {
        Some(compare_offsets(self.offset, other.offset))
    }
}

impl<'a, T> PartialOrdSpecImpl for SlicePoint<'a, T> {
    open spec fn obeys_partial_cmp_spec() -> bool {
        true
    }

    open spec fn partial_cmp_spec(&self, other: &Self) -> Option<Ordering> {
        Some(offsets_compared(self.offset, other.offset))
    }
}

impl<'a> PartialOrd for StringPoint<'a> {
    #[inline]
    fn partial_cmp(&self, other: &StringPoint<'a>) -> (r: Option<Ordering>) {
        Some(compare_offsets(self.offset, other.offset))
    }
}

impl<'a> PartialOrdSpecImpl for StringPoint<'a> {
    open spec fn obeys_partial_cmp_spec() -> bool {
        true
    }

    open spec fn partial_cmp_spec(&self, other: &StringPoint<'a>) -> Option<Ordering> {
        Some(offsets_compared(self.offset, other.offset))
    }
}

} // verus!
