//! What an alternation comes to, stated over the outcomes that its options
//! give.
//!
//! The statements here are about options that leave the driver as they
//! found it, so that what the driver remembers changes only by what the
//! alternation itself discards. They follow step by step what
//! [`Alternate::one`](crate::master::Alternate::one) does.

use crate::master::{after_option, discard, reconcile, undecided};
use crate::point::{Point, Recoverable};
use crate::progress::{Progress, Status};
use vstd::prelude::*;

verus! {

/// An outcome after which an alternation goes on to the next option.
pub open spec fn fails_recoverably<P, T, E: Recoverable>(out: Progress<P, T, E>) -> bool {
    out.status matches Status::Failure(e) && e.is_recoverable()
}

/// What an alternation remembers and holds after options with the outcomes
/// `outs` were added, in this order, to one that remembered `seen` and held
/// `current`.
pub open spec fn alternation<P: Point, T, E: Recoverable>(
    seen: Option<(P, E)>,
    current: Option<Progress<P, T, E>>,
    outs: Seq<Progress<P, T, E>>,
) -> (Option<(P, E)>, Option<Progress<P, T, E>>)
    decreases outs.len(),
{
    if outs.len() == 0 {
        (seen, current)
    } else {
        let (seen, current) = after_option(seen, current, outs[0]);
        alternation(seen, current, outs.drop_first())
    }
}

/// How deep a remembered failure stands; below every point where nothing is
/// remembered.
pub open spec fn reach<P: Point, E>(found: Option<(P, E)>) -> int {
    match found {
        Some((p, e)) => p.depth() as int,
        None => -1,
    }
}

/// A decided alternation stays as it is, whatever options are added.
pub proof fn lemma_decided_stays<P: Point, T, E: Recoverable>(
    seen: Option<(P, E)>,
    current: Option<Progress<P, T, E>>,
    outs: Seq<Progress<P, T, E>>,
)
    requires
        !undecided(current),
    ensures
        alternation(seen, current, outs) == (seen, current),
    decreases outs.len(),
{
    if outs.len() > 0 {
        lemma_decided_stays(seen, current, outs.drop_first());
    }
}

/// Order is priority: the alternation ends with the outcome of the first
/// option that matches or fails fatally. The options after it count for
/// nothing, neither in the result nor in what the driver remembers.
pub proof fn lemma_first_decisive_wins<P: Point, T, E: Recoverable>(
    seen: Option<(P, E)>,
    current: Option<Progress<P, T, E>>,
    outs: Seq<Progress<P, T, E>>,
    k: int,
)
    requires
        undecided(current),
        0 <= k < outs.len(),
        forall|i: int| 0 <= i < k ==> fails_recoverably(#[trigger] outs[i]),
        !fails_recoverably(outs[k]),
    ensures
        alternation(seen, current, outs).1 == Some(outs[k]),
        alternation(seen, current, outs) == alternation(seen, current, outs.take(k + 1)),
    decreases k,
{
    let (seen1, current1) = after_option(seen, current, outs[0]);
    let rest = outs.drop_first();
    let short = outs.take(k + 1);
    assert(short[0] == outs[0]);
    assert(short.drop_first() =~= rest.take(k));
    if k == 0 {
        lemma_decided_stays(seen1, current1, rest);
        lemma_decided_stays(seen1, current1, short.drop_first());
    } else {
        assert forall|i: int| 0 <= i < k - 1 implies fails_recoverably(#[trigger] rest[i]) by {
            assert(rest[i] == outs[i + 1]);
        }
        assert(fails_recoverably(outs[0]));
        lemma_first_decisive_wins(seen1, current1, rest, k - 1);
    }
}

/// Where the outcome held and every option fail recoverably, what is
/// reported in the end stands at least as deep as each of them and as what
/// was remembered before, and is one of them.
proof fn lemma_report_is_deepest<P: Point, T, E: Recoverable>(
    seen: Option<(P, E)>,
    current: Option<Progress<P, T, E>>,
    outs: Seq<Progress<P, T, E>>,
)
    requires
        undecided(current),
        forall|i: int| 0 <= i < outs.len() ==> fails_recoverably(#[trigger] outs[i]),
    ensures
        ({
            let (memory, last) = alternation(seen, current, outs);
            let report = discard(memory, last);
            &&& undecided(last)
            &&& outs.len() > 0 ==> last is Some
            &&& reach(report) >= reach(seen)
            &&& current matches Some(c) ==> reach(report) >= c.point.depth()
            &&& forall|i: int|
                0 <= i < outs.len() ==> reach(report) >= (#[trigger] outs[i]).point.depth()
            &&& {
                ||| report == seen
                ||| current matches Some(c) && report == Some((c.point, c.status->Failure_0))
                ||| exists|j: int|
                    0 <= j < outs.len() && report == Some(
                        ((#[trigger] outs[j]).point, outs[j].status->Failure_0),
                    )
            }
        }),
    decreases outs.len(),
{
    if outs.len() > 0 {
        let (seen1, current1) = after_option(seen, current, outs[0]);
        let rest = outs.drop_first();
        assert forall|i: int| 0 <= i < rest.len() implies fails_recoverably(#[trigger] rest[i]) by {
            assert(rest[i] == outs[i + 1]);
        }
        assert(fails_recoverably(outs[0]));
        lemma_report_is_deepest(seen1, current1, rest);
        let (memory, last) = alternation(seen, current, outs);
        let report = discard(memory, last);
        assert forall|i: int| 0 <= i < outs.len() implies reach(report) >= (
        #[trigger] outs[i]).point.depth() by {
            if i > 0 {
                assert(outs[i] == rest[i - 1]);
            }
        }
        if exists|j: int|
            0 <= j < rest.len() && report == Some(
                ((#[trigger] rest[j]).point, rest[j].status->Failure_0),
            ) {
            let j = choose|j: int|
                0 <= j < rest.len() && report == Some(
                    ((#[trigger] rest[j]).point, rest[j].status->Failure_0),
                );
            assert(outs[j + 1] == rest[j]);
        }
    }
}

/// Where every option fails recoverably, the parse that ends there reports
/// the failure that reached furthest, which need not be that of the option
/// tried last: a failure that stands at least as deep as that of every
/// option and as what the driver remembered before, and that is one of
/// these.
pub proof fn lemma_all_fail_reports_deepest<P: Point, T, E: Recoverable>(
    seen: Option<(P, E)>,
    outs: Seq<Progress<P, T, E>>,
)
    requires
        outs.len() > 0,
        forall|i: int| 0 <= i < outs.len() ==> fails_recoverably(#[trigger] outs[i]),
    ensures
        ({
            let (memory, last) = alternation(seen, None, outs);
            let report = reconcile(memory, last->0);
            &&& last is Some
            &&& report.status is Failure
            &&& forall|i: int|
                0 <= i < outs.len() ==> report.point.depth() >= (#[trigger] outs[i]).point.depth()
            &&& seen matches Some((p, e)) ==> report.point.depth() >= p.depth()
            &&& {
                ||| exists|j: int| 0 <= j < outs.len() && report == #[trigger] outs[j]
                ||| seen matches Some((p, e)) && report == (Progress {
                    point: p,
                    status: Status::<T, E>::Failure(e),
                })
            }
        }),
{
    lemma_report_is_deepest(seen, None, outs);
    let (memory, last) = alternation(seen, None, outs);
    let found = discard(memory, last);
    let report = reconcile(memory, last->0);
    assert(found == Some((report.point, report.status->Failure_0)));
    if exists|j: int|
        0 <= j < outs.len() && found == Some(
            ((#[trigger] outs[j]).point, outs[j].status->Failure_0),
        ) {
        let j = choose|j: int|
            0 <= j < outs.len() && found == Some(
                ((#[trigger] outs[j]).point, outs[j].status->Failure_0),
            );
        assert(report == outs[j]);
    }
}

} // verus!
