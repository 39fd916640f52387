//! The outcome of a single parsing step.

use vstd::prelude::*;

verus! {

/// Whether a parsing step matched, and with what.
#[derive(Debug, Copy, Clone, PartialEq, Eq)]
pub enum Status<T, E> {
    /// The step matched and produced a value.
    Success(T),
    /// The step did not match.
    Failure(E),
}

/// A cursor position together with the outcome of the step that led to it.
///
/// After a success the point stands behind the consumed input; after a
/// failure it stands where the attempt was made.
#[must_use]
#[derive(Debug, Copy, Clone, PartialEq, Eq)]
pub struct Progress<P, T, E> {
    /// Where parsing stands after the step.
    pub point: P,
    /// What the step produced.
    pub status: Status<T, E>,
}

impl<P, T, E> Progress<P, T, E> {
    /// A matched step that ends at `point`.
    pub fn success(point: P, val: T) -> (r: Self)
        ensures
            r == (Progress { point, status: Status::<T, E>::Success(val) }),
    {
        Progress { point, status: Status::Success(val) }
    }

    /// A failed step at `point`.
    pub fn failure(point: P, val: E) -> (r: Self)
        ensures
            r == (Progress { point, status: Status::<T, E>::Failure(val) }),
    {
        Progress { point, status: Status::Failure(val) }
    }

    /// Converts the value of a success with `f`; a failure passes through
    /// untouched and `f` is not called.
    pub fn map<F, T2>(self, f: F) -> (r: Progress<P, T2, E>) where F: FnOnce(T) -> T2
        requires
            self.status matches Status::Success(v) ==> f.requires((v,)),
        ensures
            r.point == self.point,
            match self.status {
                Status::Success(v) => r.status matches Status::Success(w) && f.ensures((v,), w),
                Status::Failure(e) => r.status == Status::<T2, E>::Failure(e),
            },
    {
        match self.status {
            Status::Success(v) => Progress { point: self.point, status: Status::Success(f(v)) },
            Status::Failure(e) => Progress { point: self.point, status: Status::Failure(e) },
        }
    }

    /// Converts the error of a failure with `f`; a success passes through
    /// untouched and `f` is not called.
    pub fn map_err<F, E2>(self, f: F) -> (r: Progress<P, T, E2>) where F: FnOnce(E) -> E2
        requires
            self.status matches Status::Failure(e) ==> f.requires((e,)),
        ensures
            r.point == self.point,
            match self.status {
                Status::Success(v) => r.status == Status::<T, E2>::Success(v),
                Status::Failure(e) => r.status matches Status::Failure(w) && f.ensures((e,), w),
            },
    {
        match self.status {
            Status::Success(v) => Progress { point: self.point, status: Status::Success(v) },
            Status::Failure(e) => Progress { point: self.point, status: Status::Failure(f(e)) },
        }
    }

    /// Sequencing: runs `next` from where a success ended, handing it the
    /// value; a failure short-circuits and `next` is not called.
    pub fn and_then<F, T2>(self, next: F) -> (r: Progress<P, T2, E>) where
        F: FnOnce(P, T) -> Progress<P, T2, E>,
        requires
            self.status matches Status::Success(v) ==> next.requires((self.point, v)),
        ensures
            match self.status {
                Status::Success(v) => next.ensures((self.point, v), r),
                Status::Failure(e) => r == (Progress {
                    point: self.point,
                    status: Status::<T2, E>::Failure(e),
                }),
            },
    {
        match self.status {
            Status::Success(v) => next(self.point, v),
            Status::Failure(e) => Progress { point: self.point, status: Status::Failure(e) },
        }
    }
}

} // verus!
