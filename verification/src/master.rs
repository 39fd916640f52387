//! The combinator driver: alternation and repetition over parsing
//! functions, with the furthest failure remembered for the final report.
//!
//! A parsing function takes the driver and a point and returns a
//! [`Progress`]. Sequencing is not the driver's business: the caller feeds
//! the point of one step into the next and stops at the first failure.

use crate::point::{Point, Recoverable};
use crate::progress::{Progress, Status};
use vstd::prelude::*;

verus! {

/// The furthest of the failures seen so far and one more at `point`: the one
/// that stands deeper in the input, and the newcomer where both stand
/// equally deep.
pub open spec fn further<P: Point, E>(seen: Option<(P, E)>, point: P, failure: E) -> (P, E) {
    match seen {
        Some((p, e)) => if p.depth() > point.depth() {
            (p, e)
        } else {
            (point, failure)
        },
        None => (point, failure),
    }
}

/// What is remembered once the outcome `current` has given way to a later
/// attempt: a failure is added to `seen`, anything else leaves it alone.
pub open spec fn discard<P: Point, T, E>(
    seen: Option<(P, E)>,
    current: Option<Progress<P, T, E>>,
) -> Option<(P, E)> {
    match current {
        Some(Progress { point, status: Status::Failure(e) }) => Some(further(seen, point, e)),
        _ => seen,
    }
}

/// Whether an alternation that holds the outcome `current` will try the
/// option added next: none has been tried, or the one tried last failed
/// recoverably. After a success or a fatal failure it is decided.
pub open spec fn undecided<P, T, E: Recoverable>(current: Option<Progress<P, T, E>>) -> bool {
    match current {
        None => true,
        Some(Progress { point, status: Status::Success(_) }) => false,
        Some(Progress { point, status: Status::Failure(e) }) => e.is_recoverable(),
    }
}

/// What an alternation remembers and holds once an option is added that
/// would return `out`: while undecided, the outcome held gives way to
/// `out`; once decided, nothing changes.
pub open spec fn after_option<P: Point, T, E: Recoverable>(
    seen: Option<(P, E)>,
    current: Option<Progress<P, T, E>>,
    out: Progress<P, T, E>,
) -> (Option<(P, E)>, Option<Progress<P, T, E>>) {
    if undecided(current) {
        (discard(seen, current), Some(out))
    } else {
        (seen, current)
    }
}

/// What a finished parse reports: a success as it is, a failure as the
/// furthest of itself and what was remembered.
pub open spec fn reconcile<P: Point, T, E>(
    seen: Option<(P, E)>,
    progress: Progress<P, T, E>,
) -> Progress<P, T, E> {
    match progress.status {
        Status::Success(_) => progress,
        Status::Failure(e) => {
            let (point, failure) = further(seen, progress.point, e);
            Progress { point, status: Status::Failure(failure) }
        },
    }
}

/// One call of a repeated parser, as the driver saw it.
pub struct Round<P, T, E> {
    /// The driver when the call was made.
    pub before: ParseMaster<P, E>,
    /// The driver when the call had returned.
    pub after: ParseMaster<P, E>,
    /// The point handed to the parser.
    pub at: P,
    /// What the parser returned.
    pub out: Progress<P, T, E>,
}

/// Whether `rounds` is a whole repetition from `point`, begun with the
/// driver as `start`: each round goes on where the one before it ended, all
/// rounds but the last matched, and the last failed.
pub open spec fn chained<P, T, E>(
    rounds: Seq<Round<P, T, E>>,
    start: ParseMaster<P, E>,
    point: P,
) -> bool {
    &&& rounds.len() > 0
    &&& rounds[0].before == start
    &&& rounds[0].at == point
    &&& forall|i: int, j: int|
        0 <= i && j == i + 1 && j < rounds.len() ==> {
            &&& (#[trigger] rounds[i]).out.status is Success
            &&& (#[trigger] rounds[j]).before == rounds[i].after
            &&& rounds[j].at == rounds[i].out.point
        }
    &&& rounds.last().out.status is Failure
}

/// The values of the rounds that matched, in order.
pub open spec fn matched<P, T, E>(rounds: Seq<Round<P, T, E>>) -> Seq<T> {
    Seq::new((rounds.len() - 1) as nat, |i: int| rounds[i].out.status->Success_0)
}

/// What a repetition returns and remembers, given the rounds it went
/// through. After a recoverable last failure: the matched values, at the
/// point where the last round started, and that failure remembered. After a
/// fatal one: that failure alone, where it happened.
pub open spec fn repeated<P: Point, T, E: Recoverable>(
    rounds: Seq<Round<P, T, E>>,
    r: Progress<P, Vec<T>, E>,
    end: ParseMaster<P, E>,
) -> bool {
    let last = rounds.last();
    match last.out.status {
        Status::Failure(e) => if e.is_recoverable() {
            &&& r.point == last.at
            &&& r.status matches Status::Success(values) && values@ == matched(rounds)
            &&& end.furthest() == Some(further(last.after.furthest(), last.out.point, e))
        } else {
            &&& r == (Progress { point: last.out.point, status: Status::<Vec<T>, E>::Failure(e) })
            &&& end == last.after
        },
        Status::Success(_) => false,
    }
}

/// The state of one parse: the furthest failure that any attempt has run
/// into so far. It is made fresh for a parse, lent to every combinator call
/// of that parse, and asked for the final result with [`ParseMaster::finish`].
#[derive(Debug)]
pub struct ParseMaster<P, E> {
    point: P,
    failure: Option<E>,
}

impl<P: Point, E: Recoverable> ParseMaster<P, E> {
    /// The furthest failure remembered, with the point at which it happened.
    pub closed spec fn furthest(&self) -> Option<(P, E)> {
        match self.failure {
            Some(e) => Some((self.point, e)),
            None => None,
        }
    }

    /// A driver that has seen no failure yet.
    pub fn new() -> (m: Self)
        ensures
            m.furthest() is None,
    {
        ParseMaster { point: P::zero(), failure: None }
    }

    /// Remembers a failure unless one that stands deeper is remembered
    /// already.
    fn record(&mut self, point: P, failure: E)
        ensures
            final(self).furthest() == Some(further(old(self).furthest(), point, failure)),
    {
        let keep = match &self.failure {
            Some(_) => self.point.is_past(&point),
            None => false,
        };
        if !keep {
            self.point = point;
            self.failure = Some(failure);
        }
    }

    /// Starts an alternation at `pt`. Options are added with
    /// [`Alternate::one`], in the order in which they are to be tried.
    pub fn alternate<'pm, T>(&'pm mut self, pt: P) -> (a: Alternate<'pm, P, T, E>)
        ensures
            *a.master == *old(self),
            *final(a.master) == *final(self),
            a.current is None,
            a.point == pt,
    {
        Alternate { master: self, current: None, point: pt }
    }

    /// Applies `parser` again and again, each time where the last match
    /// ended, until it fails. A recoverable failure ends the repetition well:
    /// the result is the values matched so far, none included, at the point
    /// where the failing attempt started, and the driver remembers the
    /// failure. A fatal failure is returned as it is and the values are
    /// dropped.
    ///
    /// Every match of `parser` must move forward, or the repetition would
    /// never end. So the result, where it is a success, stands at least as
    /// many steps behind `point` as it holds values.
    pub fn zero_or_more<F, T>(&mut self, point: P, parser: F) -> (r: Progress<P, Vec<T>, E>) where
        F: FnMut(&mut ParseMaster<P, E>, P) -> Progress<P, T, E>,
        requires
            forall|m: &mut ParseMaster<P, E>| parser.requires((m, point)),
            forall|m: &mut ParseMaster<P, E>, p: P, out: Progress<P, T, E>|
                #[trigger] parser.ensures((m, p), out) && out.status is Success ==> {
                    &&& out.point.depth() > p.depth()
                    &&& forall|n: &mut ParseMaster<P, E>| parser.requires((n, out.point))
                },
        ensures
            exists|rounds: Seq<Round<P, T, E>>|
                {
                    &&& #[trigger] chained(rounds, *old(self), point)
                    &&& forall|i: int|
                        0 <= i < rounds.len() ==> exists|m: &mut ParseMaster<P, E>|
                            {
                                &&& *m == (#[trigger] rounds[i]).before
                                &&& *final(m) == rounds[i].after
                                &&& #[trigger] parser.ensures((m, rounds[i].at), rounds[i].out)
                            }
                    &&& repeated(rounds, r, *final(self))
                },
            r.status matches Status::Failure(e) ==> !e.is_recoverable(),
            r.status matches Status::Success(values) ==> r.point.depth() >= point.depth()
                + values@.len(),
    {
        let mut run = parser;
        let mut current_point = point;
        let mut values: Vec<T> = Vec::new();
        let ghost mut done: Seq<Round<P, T, E>> = Seq::empty();
        loop
            invariant
                run == parser,
                forall|m: &mut ParseMaster<P, E>| parser.requires((m, current_point)),
                forall|m: &mut ParseMaster<P, E>, p: P, out: Progress<P, T, E>|
                    #[trigger] parser.ensures((m, p), out) && out.status is Success ==> {
                        &&& out.point.depth() > p.depth()
                        &&& forall|n: &mut ParseMaster<P, E>| parser.requires((n, out.point))
                    },
                values@.len() == done.len(),
                current_point.depth() >= point.depth() + values@.len(),
                forall|i: int|
                    0 <= i < done.len() ==> exists|m: &mut ParseMaster<P, E>|
                        {
                            &&& *m == (#[trigger] done[i]).before
                            &&& *final(m) == done[i].after
                            &&& #[trigger] parser.ensures((m, done[i].at), done[i].out)
                        },
                forall|i: int|
                    0 <= i < done.len() ==> (#[trigger] done[i]).out.status == Status::<
                        T,
                        E,
                    >::Success(values@[i]),
                done.len() > 0 ==> done[0].before == *old(self) && done[0].at == point,
                forall|i: int, j: int|
                    0 <= i && j == i + 1 && j < done.len() ==> {
                        &&& (#[trigger] done[j]).before == (#[trigger] done[i]).after
                        &&& done[j].at == done[i].out.point
                    },
                *self == if done.len() == 0 {
                    *old(self)
                } else {
                    done.last().after
                },
                current_point == if done.len() == 0 {
                    point
                } else {
                    done.last().out.point
                },
            decreases usize::MAX - current_point.depth(),
        {
            let ghost before = *self;
            let out = run(self, current_point);
            let ghost round = Round { before, after: *self, at: current_point, out };
            assert(exists|m: &mut ParseMaster<P, E>|
                {
                    &&& *m == round.before
                    &&& *final(m) == round.after
                    &&& #[trigger] parser.ensures((m, round.at), round.out)
                });
            match out.status {
                Status::Success(v) => {
                    values.push(v);
                    current_point = out.point;
                    proof {
                        done = done.push(round);
                    }
                },
                Status::Failure(e) => {
                    let ghost rounds = done.push(round);
                    proof {
                        assert(rounds.last() == round);
                        assert(matched(rounds) =~= values@);
                        assert(chained(rounds, *old(self), point));
                        assert forall|i: int| 0 <= i < rounds.len() implies exists|
                            m: &mut ParseMaster<P, E>,
                        |
                            {
                                &&& *m == (#[trigger] rounds[i]).before
                                &&& *final(m) == rounds[i].after
                                &&& #[trigger] parser.ensures((m, rounds[i].at), rounds[i].out)
                            } by {
                            if i < done.len() {
                                assert(rounds[i] == done[i]);
                            }
                        }
                    }
                    if e.recoverable() {
                        self.record(out.point, e);
                        let r = Progress { point: current_point, status: Status::Success(values) };
                        assert(repeated(rounds, r, *self));
                        return r;
                    } else {
                        let r = Progress { point: out.point, status: Status::Failure(e) };
                        assert(repeated(rounds, r, *self));
                        return r;
                    }
                },
            }
        }
    }

    /// Ends a parse. A success is returned as it is and nothing is
    /// forgotten. For a failure the furthest failure of the whole parse is
    /// returned, which is `progress` itself unless a failure strictly deeper
    /// in the input was remembered; the driver is then fresh again.
    pub fn finish<T>(&mut self, progress: Progress<P, T, E>) -> (r: Progress<P, T, E>)
        ensures
            r == reconcile(old(self).furthest(), progress),
            progress.status is Success ==> *final(self) == *old(self),
            progress.status is Failure ==> final(self).furthest() is None,
    {
        match progress.status {
            Status::Success(v) => Progress { point: progress.point, status: Status::Success(v) },
            Status::Failure(e) => match self.failure.take() {
                Some(failure) if self.point.is_past(&progress.point) => Progress {
                    point: self.point,
                    status: Status::Failure(failure),
                },
                _ => Progress { point: progress.point, status: Status::Failure(e) },
            },
        }
    }
}

/// An alternation under way: the options tried so far and what came of
/// them.
pub struct Alternate<'pm, P, T, E> {
    /// The driver of the parse.
    pub master: &'pm mut ParseMaster<P, E>,
    /// The outcome of the option tried last; `None` before the first.
    pub current: Option<Progress<P, T, E>>,
    /// Where every option starts.
    pub point: P,
}

impl<'pm, P: Point, T, E: Recoverable> Alternate<'pm, P, T, E> {
    /// Adds an option. It is tried, from the point at which the alternation
    /// started, only while the alternation is undecided; its outcome then
    /// takes the place of the earlier one, whose failure the driver
    /// remembers. Once the alternation is decided, `parser` is not called and
    /// nothing changes.
    pub fn one<F>(self, parser: F) -> (r: Alternate<'pm, P, T, E>) where
        F: FnOnce(&mut ParseMaster<P, E>, P) -> Progress<P, T, E>,
        requires
            undecided(self.current) ==> forall|m: &mut ParseMaster<P, E>|
                parser.requires((m, self.point)),
        ensures
            r.point == self.point,
            *final(r.master) == *final(self.master),
            !undecided(self.current) ==> r.current == self.current && *r.master == *old(
                self.master,
            ),
            undecided(self.current) ==> exists|m: &mut ParseMaster<P, E>, out: Progress<P, T, E>|
                {
                    &&& *m == *old(self.master)
                    &&& #[trigger] parser.ensures((m, self.point), out)
                    &&& (r.master.furthest(), r.current) == after_option(
                        final(m).furthest(),
                        self.current,
                        out,
                    )
                },
    {
        let mut this = self;
        let run = match &this.current {
            None => true,
            Some(progress) => match &progress.status {
                Status::Success(_) => false,
                Status::Failure(e) => e.recoverable(),
            },
        };
        if run {
            let out = parser(this.master, this.point);
            if let Some(Progress { point, status: Status::Failure(e) }) = this.current.take() {
                this.master.record(point, e);
            }
            this.current = Some(out);
        }
        this
    }

    /// Ends the alternation with the outcome of the option tried last: the
    /// first success or fatal failure, or else the failure of the last
    /// option. At least one option must have been added.
    pub fn finish(self) -> (r: Progress<P, T, E>)
        requires
            self.current is Some,
        ensures
            Some(r) == self.current,
            *final(self.master) == *old(self.master),
    {
        self.current.unwrap()
    }
}

} // verus!
