//! A cursor over a slice of items of any kind.

use crate::point::Point;
use crate::progress::{Progress, Status};
use vstd::prelude::*;
use vstd::std_specs::cmp::PartialEqSpec;

verus! {

/// Tracks the location of parsing in a slice.
///
/// A point is made once over the whole input, at offset zero. A step that
/// matches makes a new point over what is left; the old one stays valid.
#[derive(Debug)]
pub struct SlicePoint<'a, T> {
    /// How far into the original slice the point stands.
    pub offset: usize,
    /// The part of the input that is still to be parsed.
    pub s: &'a [T],
}

impl<'a, T> Copy for SlicePoint<'a, T> {

}

impl<'a, T> Clone for SlicePoint<'a, T> {
    #[inline]
    fn clone(&self) -> (r: Self)
        ensures
            r == *self,
    {
        *self
    }
}

/// Whether `s` begins with `tag`, item for item, by the items' own equality.
pub open spec fn begins_with<T: PartialEq>(s: Seq<T>, tag: Seq<T>) -> bool {
    &&& tag.len() <= s.len()
    &&& forall|i: int| 0 <= i < tag.len() ==> (#[trigger] s[i]).eq_spec(&tag[i])
}

impl<'a, T> SlicePoint<'a, T> {
    /// The offset counts what lies before the point, so it can be advanced
    /// over all that is left: every point made by [`SlicePoint::new`] and by
    /// the steps from it is of this kind.
    pub open spec fn wf(&self) -> bool {
        self.offset + self.s@.len() <= usize::MAX
    }

    /// Whether `r` is the match of the first `len` items at this point: the
    /// value is these items, and the point stands behind them.
    pub open spec fn matched_by<E>(
        &self,
        len: int,
        r: Progress<SlicePoint<'a, T>, &'a [T], E>,
    ) -> bool {
        &&& r.point.offset == self.offset + len
        &&& r.point.s@ == self.s@.skip(len)
        &&& r.point.wf()
        &&& r.status matches Status::Success(m) && m@ == self.s@.take(len)
    }

    /// Whether `r` is the failure at this point: nothing has moved.
    pub open spec fn failed_by<U>(&self, r: Progress<SlicePoint<'a, T>, U, ()>) -> bool {
        r == (Progress { point: *self, status: Status::<U, ()>::Failure(()) })
    }

    /// The point at the start of `slice`.
    #[inline]
    pub fn new(slice: &'a [T]) -> (p: Self)
        ensures
            p.offset == 0,
            p.s == slice,
            p.wf(),
    {
        proof {
            vstd::slice::axiom_spec_len(slice);
        }
        SlicePoint { offset: 0, s: slice }
    }

    /// The point `offset` items further on.
    #[inline]
    pub fn advance_by(self, offset: usize) -> (p: Self)
        requires
            self.wf(),
            offset <= self.s@.len(),
        ensures
            p.offset == self.offset + offset,
            p.s@ == self.s@.skip(offset as int),
            p.wf(),
    {
        let (_, rest) = self.s.split_at(offset);
        SlicePoint { s: rest, offset: self.offset + offset }
    }

    /// A failure at this point.
    #[inline]
    pub fn fail<U>(self) -> (r: Progress<SlicePoint<'a, T>, U, ()>)
        ensures
            self.failed_by(r),
    {
        Progress { point: self, status: Status::Failure(()) }
    }

    /// The match of the next `len` items, which may be none. The caller
    /// knows that so many are left.
    #[inline]
    pub fn success<E>(self, len: usize) -> (r: Progress<SlicePoint<'a, T>, &'a [T], E>)
        requires
            self.wf(),
            len <= self.s@.len(),
        ensures
            self.matched_by(len as int, r),
    {
        let (matched, rest) = self.s.split_at(len);
        Progress {
            point: SlicePoint { s: rest, offset: self.offset + len },
            status: Status::Success(matched),
        }
    }

    /// As [`SlicePoint::success`] where a length is given, a failure where
    /// none is.
    #[inline]
    pub fn success_opt(self, len: Option<usize>) -> (r: Progress<SlicePoint<'a, T>, &'a [T], ()>)
        requires
            self.wf(),
            len matches Some(l) ==> l <= self.s@.len(),
        ensures
            match len {
                Some(l) => self.matched_by(l as int, r),
                None => self.failed_by(r),
            },
    {
        if let Some(l) = len {
            self.success(l)
        } else {
            self.fail()
        }
    }

    /// As [`SlicePoint::consume`] where a length is given, a failure where
    /// none is.
    #[inline]
    pub fn consume_opt(self, len: Option<usize>) -> (r: Progress<SlicePoint<'a, T>, &'a [T], ()>)
        requires
            self.wf(),
        ensures
            match len {
                Some(l) if 0 < l <= self.s@.len() => self.matched_by(l as int, r),
                _ => self.failed_by(r),
            },
    {
        if let Some(l) = len {
            self.consume(l)
        } else {
            self.fail()
        }
    }

    /// Takes the next `len` items. This fails, without moving, where `len`
    /// is zero or more than what is left: a parser that is repeated must not
    /// match nothing.
    #[inline]
    pub fn consume(self, len: usize) -> (r: Progress<SlicePoint<'a, T>, &'a [T], ()>)
        requires
            self.wf(),
        ensures
            if 0 < len <= self.s@.len() {
                self.matched_by(len as int, r)
            } else {
                self.failed_by(r)
            },
    {
        if len > 0 && len <= self.s.len() {
            self.success(len)
        } else {
            self.fail()
        }
    }
}

impl<'a, T> Point for SlicePoint<'a, T> {
    open spec fn depth(&self) -> usize {
        self.offset
    }

    /// The point at the start of an empty input.
    #[inline]
    fn zero() -> (z: Self)
        ensures
            z.offset == 0,
            z.s@.len() == 0,
    {
        SlicePoint { offset: 0, s: &[] }
    }

    #[inline]
    fn is_past(&self, other: &Self) -> (b: bool) {
        self.offset > other.offset
    }
}

/// The length of `tag` where `s` begins with it, item for item.
pub(crate) fn prefix_len<T: PartialEq>(s: &[T], tag: &[T]) -> (r: Option<usize>)
    ensures
        r matches Some(n) ==> n == tag@.len() && n <= s@.len(),
        tag@.len() == 0 ==> r is Some,
        T::obeys_eq_spec() ==> (r is Some <==> begins_with(s@, tag@)),
{
    if tag.len() > s.len() {
        return None;
    }
    let mut i: usize = 0;
    while i < tag.len()
        invariant
            i <= tag@.len() <= s@.len(),
            T::obeys_eq_spec() ==> forall|j: int|
                0 <= j < i ==> (#[trigger] s@[j]).eq_spec(&tag@[j]),
        decreases tag@.len() - i,
    {
        if !(s[i] == tag[i]) {
            return None;
        }
        i += 1;
    }
    Some(tag.len())
}

impl<'a, T: PartialEq> SlicePoint<'a, T> {
    /// Whether `r` is what matching `tag` at this point comes to: a match of
    /// as many items as `tag` has, or a failure that has not moved. For items
    /// whose `==` keeps to its `eq_spec`, it is a match exactly where the
    /// input begins with `tag`.
    pub open spec fn tagged_by(
        &self,
        tag: Seq<T>,
        r: Progress<SlicePoint<'a, T>, &'a [T], ()>,
    ) -> bool {
        &&& if r.status is Success {
            tag.len() <= self.s@.len() && self.matched_by(tag.len() as int, r)
        } else {
            self.failed_by(r)
        }
        &&& tag.len() == 0 ==> r.status is Success
        &&& T::obeys_eq_spec() ==> (r.status is Success <==> begins_with(self.s@, tag))
    }

    /// A parser for the literal `tag`: it matches where the input begins
    /// with the items of `tag`, taking exactly these, and fails without
    /// moving anywhere else.
    #[inline]
    pub fn tag(tag: &'a [T]) -> (parser: impl Fn(SlicePoint<'a, T>) -> Progress<
        SlicePoint<'a, T>,
        &'a [T],
        (),
    >)
        ensures
            forall|p: SlicePoint<'a, T>| p.wf() ==> #[trigger] parser.requires((p,)),
            forall|p: SlicePoint<'a, T>, r: Progress<SlicePoint<'a, T>, &'a [T], ()>| #[trigger]
                parser.ensures((p,), r) ==> p.tagged_by(tag@, r),
    {
        move |p: SlicePoint<'a, T>| -> (r: Progress<SlicePoint<'a, T>, &'a [T], ()>)
            requires
                p.wf(),
            ensures
                p.tagged_by(tag@, r),
            { p.success_opt(prefix_len(p.s, tag)) }
    }
}

} // verus!
