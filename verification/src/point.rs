//! What the driver asks of a cursor type and of an error type.

use vstd::prelude::*;

verus! {

/// A cursor into some input. Points are plain values: a step never changes
/// a point, it makes a new one, so going back is keeping the old one.
///
/// Points are ordered by how far into the input they stand, never by what
/// input is left.
pub trait Point: Copy {
    /// How far into the input the point stands.
    spec fn depth(&self) -> usize;

    /// The point before any input.
    fn zero() -> (z: Self)
        ensures
            z.depth() == 0,
    ;

    /// Whether `self` stands strictly further into the input than `other`.
    fn is_past(&self, other: &Self) -> (b: bool)
        ensures
            b == (self.depth() > other.depth()),
    ;
}

/// An error that says of itself whether parsing may go on after it.
///
/// After a recoverable error the driver tries the next alternative, or ends
/// a repetition with what it has; any other error is fatal and is handed up
/// at once. The answer depends on the value alone: the same error is
/// classified the same way every time.
pub trait Recoverable {
    /// The classification of this value: what
    /// [`Recoverable::recoverable`] answers for it.
    spec fn is_recoverable(&self) -> bool;

    /// Whether parsing may go on after this error.
    fn recoverable(&self) -> (r: bool)
        ensures
            r == self.is_recoverable(),
    ;
}

} // verus!
