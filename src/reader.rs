//! The shared event queue behind every reader handle: predicate-filtered, non-destructive
//! polling and destructive reading that keep the order in which events arrived.
use std::collections::VecDeque;

use vstd::prelude::*;

use crate::event::Event;

verus! {

/// Whether the filter `f` accepts `e`.
pub open spec fn admits<F: Fn(&Event) -> bool>(f: F, e: Event) -> bool {
    f.ensures((&e,), true)
}

/// A filter that can be called on every event and answers the same for the same event.
pub open spec fn is_filter<F: Fn(&Event) -> bool>(f: F) -> bool {
    &&& forall|e: &Event| #[trigger] f.requires((e,))
    &&& forall|e: &Event, b: bool| #[trigger] f.ensures((e,), b) ==> b == f.ensures((e,), true)
}

/// The predicate of a filter.
pub open spec fn pred_of<F: Fn(&Event) -> bool>(f: F) -> spec_fn(Event) -> bool {
    |e: Event| admits(f, e)
}

/// The position of the first event of `q` that `p` accepts, if one does.
pub open spec fn first_match(q: Seq<Event>, p: spec_fn(Event) -> bool) -> Option<int>
    decreases q.len(),
{
    if q.len() == 0 {
        None
    } else {
        match first_match(q.drop_last(), p) {
            Some(i) => Some(i),
            None => if p(q.last()) {
                Some(q.len() - 1)
            } else {
                None
            },
        }
    }
}

/// `first_match` finds the first accepted event, and only misses where none is accepted.
pub proof fn lemma_first_match(q: Seq<Event>, p: spec_fn(Event) -> bool)
    ensures
        first_match(q, p) is None <==> forall|j: int| 0 <= j < q.len() ==> !p(#[trigger] q[j]),
        first_match(q, p) matches Some(i) ==> 0 <= i < q.len() && p(q[i]) && forall|j: int|
            0 <= j < i ==> !p(#[trigger] q[j]),
    decreases q.len(),
{
    if q.len() > 0 {
        lemma_first_match(q.drop_last(), p);
        assert forall|j: int| 0 <= j < q.len() - 1 implies q.drop_last()[j] == q[j] by {}
    }
}

proof fn lemma_first_match_extends(q: Seq<Event>, p: spec_fn(Event) -> bool, k: int)
    requires
        0 <= k <= q.len(),
        first_match(q.subrange(0, k), p) is Some,
    ensures
        first_match(q, p) == first_match(q.subrange(0, k), p),
    decreases q.len() - k,
{
    if k < q.len() {
        assert(q.subrange(0, k + 1).drop_last() =~= q.subrange(0, k));
        lemma_first_match_extends(q, p, k + 1);
    } else {
        assert(q.subrange(0, k) =~= q);
    }
}


/// The events at the given positions of `q`, in that order.
pub open spec fn at_positions(q: Seq<Event>, rem: Seq<int>) -> Seq<Event> {
    rem.map_values(|j: int| q[j])
}

/// Reads from a buffer that first held `q`, one per predicate of `ps` in turn, each taking
/// the first buffered event that its predicate accepts (as `take_match` does): the position
/// in `q` that each read took, if any, and the positions still buffered, in order.
pub open spec fn read_in_turn(q: Seq<Event>, ps: Seq<spec_fn(Event) -> bool>) -> (
    Seq<Option<int>>,
    Seq<int>,
)
    decreases ps.len(),
{
    if ps.len() == 0 {
        (Seq::empty(), Seq::new(q.len(), |i: int| i))
    } else {
        let (taken, rem) = read_in_turn(q, ps.drop_last());
        match first_match(at_positions(q, rem), ps.last()) {
            Some(i) => (taken.push(Some(rem[i])), rem.remove(i)),
            None => (taken.push(None), rem),
        }
    }
}

pub open spec fn increasing(rem: Seq<int>) -> bool {
    forall|i: int, j: int| 0 <= i < j < rem.len() ==> rem[i] < rem[j]
}

/// Taking an event out of the buffer is taking its position out of the positions.
pub proof fn lemma_take_at_position(q: Seq<Event>, rem: Seq<int>, i: int)
    requires
        0 <= i < rem.len(),
    ensures
        at_positions(q, rem)[i] == q[rem[i]],
        at_positions(q, rem).remove(i) == at_positions(q, rem.remove(i)),
{
    assert(at_positions(q, rem).remove(i) =~= at_positions(q, rem.remove(i)));
}

spec fn in_turn_inv(
    q: Seq<Event>,
    ps: Seq<spec_fn(Event) -> bool>,
    taken: Seq<Option<int>>,
    rem: Seq<int>,
) -> bool {
    &&& taken.len() == ps.len()
    &&& increasing(rem)
    &&& forall|i: int| 0 <= i < rem.len() ==> 0 <= #[trigger] rem[i] < q.len()
    &&& forall|k: int|
        0 <= k < taken.len() && (#[trigger] taken[k]) is Some ==> 0 <= taken[k].unwrap() < q.len()
            && !rem.contains(taken[k].unwrap()) && ps[k](q[taken[k].unwrap()])
    &&& forall|k1: int, k2: int|
        0 <= k1 < k2 < taken.len() && (#[trigger] taken[k1]) is Some && (#[trigger] taken[k2]) is Some
            ==> taken[k1].unwrap() != taken[k2].unwrap() && (ps[k1] == ps[k2] ==> taken[k1].unwrap()
            < taken[k2].unwrap())
    &&& forall|j: int|
        0 <= j < q.len() ==> rem.contains(j) || exists|k: int|
            0 <= k < taken.len() && #[trigger] taken[k] == Some(j)
    &&& forall|k: int, i: int|
        0 <= k < taken.len() && 0 <= i < rem.len() && (#[trigger] taken[k]) is Some && #[trigger] rem[i]
            < taken[k].unwrap() ==> !ps[k](q[rem[i]])
}

proof fn lemma_in_turn_inv(q: Seq<Event>, ps: Seq<spec_fn(Event) -> bool>)
    ensures
        in_turn_inv(q, ps, read_in_turn(q, ps).0, read_in_turn(q, ps).1),
    decreases ps.len(),
{
    if ps.len() == 0 {
        let rem = Seq::new(q.len(), |i: int| i);
        assert forall|j: int| 0 <= j < q.len() implies rem.contains(j) by {
            assert(rem[j] == j);
        }
    } else {
        let prev = ps.drop_last();
        lemma_in_turn_inv(q, prev);
        let (taken, rem) = read_in_turn(q, prev);
        let p = ps.last();
        let queue = at_positions(q, rem);
        lemma_first_match(queue, p);
        assert forall|k: int| 0 <= k < prev.len() implies prev[k] == ps[k] by {}
        match first_match(queue, p) {
            Some(i) => {
                let b = rem[i];
                let rem2 = rem.remove(i);
                let taken2 = taken.push(Some(b));
                assert(queue[i] == q[b]);
                assert forall|x: int| 0 <= x < rem2.len() implies (x < i ==> rem2[x] == rem[x]) && (x
                    >= i ==> rem2[x] == rem[x + 1]) by {}
                assert(!rem2.contains(b)) by {
                    if rem2.contains(b) {
                        let x = choose|x: int| 0 <= x < rem2.len() && rem2[x] == b;
                        if x < i {
                            assert(rem[x] < rem[i]);
                        } else {
                            assert(rem[i] < rem[x + 1]);
                        }
                    }
                }
                assert forall|j: int| rem2.contains(j) implies rem.contains(j) by {
                    let x = choose|x: int| 0 <= x < rem2.len() && rem2[x] == j;
                    if x < i {
                        assert(rem[x] == j);
                    } else {
                        assert(rem[x + 1] == j);
                    }
                }
                assert forall|k: int|
                    0 <= k < taken2.len() && (#[trigger] taken2[k]) is Some implies 0
                    <= taken2[k].unwrap() < q.len() && !rem2.contains(taken2[k].unwrap()) && ps[k](
                    q[taken2[k].unwrap()],
                ) by {
                    if k < taken.len() {
                        assert(taken2[k] == taken[k]);
                    }
                }
                assert forall|k1: int, k2: int|
                    0 <= k1 < k2 < taken2.len() && (#[trigger] taken2[k1]) is Some && (
                    #[trigger] taken2[k2]) is Some implies taken2[k1].unwrap() != taken2[k2].unwrap()
                    && (ps[k1] == ps[k2] ==> taken2[k1].unwrap() < taken2[k2].unwrap()) by {
                    assert(taken2[k1] == taken[k1]);
                    if k2 < taken.len() {
                        assert(taken2[k2] == taken[k2]);
                    } else {
                        let a = taken[k1].unwrap();
                        assert(rem.contains(b));
                        if ps[k1] == ps[k2] {
                            if b < a {
                                assert(!ps[k1](q[rem[i]]));
                            }
                        }
                    }
                }
                assert forall|j: int| 0 <= j < q.len() implies rem2.contains(j) || exists|k: int|
                    0 <= k < taken2.len() && #[trigger] taken2[k] == Some(j) by {
                    if rem.contains(j) {
                        let x = choose|x: int| 0 <= x < rem.len() && rem[x] == j;
                        if x < i {
                            assert(rem2[x] == j);
                        } else if x > i {
                            assert(rem2[x - 1] == j);
                        } else {
                            assert(taken2[taken.len() as int] == Some(j));
                        }
                    } else {
                        let k = choose|k: int| 0 <= k < taken.len() && #[trigger] taken[k] == Some(j);
                        assert(taken2[k] == Some(j));
                    }
                }
                assert forall|k: int, x: int|
                    0 <= k < taken2.len() && 0 <= x < rem2.len() && (#[trigger] taken2[k]) is Some
                        && #[trigger] rem2[x] < taken2[k].unwrap() implies !ps[k](q[rem2[x]]) by {
                    let y = if x < i {
                        x
                    } else {
                        x + 1
                    };
                    assert(rem2[x] == rem[y]);
                    if k < taken.len() {
                        assert(taken2[k] == taken[k]);
                    } else {
                        assert(y < i);
                        assert(queue[y] == q[rem[y]]);
                    }
                }
            },
            None => {
                let taken2 = taken.push(None);
                assert forall|k: int| 0 <= k < taken.len() implies taken2[k] == taken[k] by {}
                assert forall|j: int| 0 <= j < q.len() implies rem.contains(j) || exists|k: int|
                    0 <= k < taken2.len() && #[trigger] taken2[k] == Some(j) by {
                    if !rem.contains(j) {
                        let k = choose|k: int| 0 <= k < taken.len() && #[trigger] taken[k] == Some(j);
                        assert(taken2[k] == Some(j));
                    }
                }
            },
        }
    }
}

/// A read that finds nothing buffered draws events until its predicate accepts one
/// (`read_step`): it hands out that event and buffers the ones drawn before it behind the
/// rest. That is exactly what a read from the buffer does once the drawn events have arrived
/// in it, so `read_in_turn` over every event in arrival order covers reads that draw too.
pub proof fn lemma_drawing_read(q: Seq<Event>, drawn: Seq<Event>, p: spec_fn(Event) -> bool)
    requires
        first_match(q, p) is None,
        drawn.len() > 0,
        first_match(drawn.drop_last(), p) is None,
        p(drawn.last()),
    ensures
        first_match(q + drawn, p) == Some(q.len() + drawn.len() - 1),
        (q + drawn)[q.len() + drawn.len() - 1] == drawn.last(),
        (q + drawn).remove(q.len() + drawn.len() - 1) == q + drawn.drop_last(),
{
    let all = q + drawn;
    let last = q.len() + drawn.len() - 1;
    lemma_first_match(q, p);
    lemma_first_match(drawn.drop_last(), p);
    lemma_first_match(all, p);
    assert forall|j: int| 0 <= j < last implies !p(#[trigger] all[j]) by {
        if j < q.len() {
            assert(all[j] == q[j]);
        } else {
            assert(all[j] == drawn.drop_last()[j - q.len()]);
        }
    }
    assert(all[last] == drawn.last());
    assert(all.remove(last) =~= q + drawn.drop_last());
}

/// Reads with any predicates, one after another, from a buffer that held `q`: no event is
/// handed out twice, every event is either handed out or still buffered and never both, the
/// buffered ones keep their order, and the reads with one predicate hand out its events in
/// the order in which they arrived.
pub proof fn lemma_reads_keep_order(q: Seq<Event>, ps: Seq<spec_fn(Event) -> bool>)
    ensures
        ({
            let (taken, rem) = read_in_turn(q, ps);
            &&& taken.len() == ps.len()
            &&& increasing(rem)
            &&& forall|i: int| 0 <= i < rem.len() ==> 0 <= #[trigger] rem[i] < q.len()
            &&& forall|k: int|
                0 <= k < taken.len() && (#[trigger] taken[k]) is Some ==> 0 <= taken[k].unwrap()
                    < q.len() && !rem.contains(taken[k].unwrap())
            &&& forall|k1: int, k2: int|
                0 <= k1 < k2 < taken.len() && (#[trigger] taken[k1]) is Some && (
                #[trigger] taken[k2]) is Some ==> taken[k1].unwrap() != taken[k2].unwrap() && (
                ps[k1] == ps[k2] ==> taken[k1].unwrap() < taken[k2].unwrap())
            &&& forall|j: int|
                0 <= j < q.len() ==> rem.contains(j) || exists|k: int|
                    0 <= k < taken.len() && #[trigger] taken[k] == Some(j)
        }),
{
    lemma_in_turn_inv(q, ps);
}

/// What a draw from the byte source gave the reader.
pub enum Drawn {
    /// One decoded event.
    Event(Event),
    /// Nothing arrived within the time given to the draw.
    Empty,
    /// The wait was interrupted by a waker, or the source failed: the operation ends.
    Stopped,
}

/// What a poll does after a draw.
#[derive(Debug, Clone, Copy, PartialEq, Eq, Structural)]
pub enum PollStep {
    /// Draw again.
    Continue,
    /// A matching event is buffered.
    Matched,
    /// The operation ends without a match.
    NoMatch,
}

/// What a read does after a draw.
#[derive(Debug)]
pub enum ReadStep {
    /// Draw again.
    Continue,
    /// The matching event, now removed from the reader.
    Done(Event),
    /// The operation ends without an event.
    Stopped,
}

/// The events that no consumer has claimed yet, and the events that the current operation
/// drew and its filter did not accept.
#[derive(Debug)]
pub struct EventQueue {
    events: VecDeque<Event>,
    skipped: VecDeque<Event>,
}

impl EventQueue {
    /// The buffered events, oldest first.
    pub closed spec fn queued(&self) -> Seq<Event> {
        self.events@
    }

    /// The events that the operation under way has drawn and passed over, oldest first.
    pub closed spec fn passed_over(&self) -> Seq<Event> {
        self.skipped@
    }

    /// Between operations nothing is passed over: every operation that ends puts what it
    /// passed over back into the buffer.
    pub open spec fn is_idle(&self) -> bool {
        self.passed_over().len() == 0
    }

    pub fn new() -> (r: EventQueue)
        ensures
            r.queued() == Seq::<Event>::empty(),
            r.passed_over() == Seq::<Event>::empty(),
            r.is_idle(),
    {
        EventQueue { events: VecDeque::new(), skipped: VecDeque::new() }
    }

    /// Whether a buffered event matches `filter`; nothing changes.
    pub fn has_match<F: Fn(&Event) -> bool>(&self, filter: &F) -> (r: bool)
        requires
            is_filter(*filter),
        ensures
            r == first_match(self.queued(), pred_of(*filter)) is Some,
    {
        self.find(filter).is_some()
    }

    fn find<F: Fn(&Event) -> bool>(&self, filter: &F) -> (r: Option<usize>)
        requires
            is_filter(*filter),
        ensures
            match first_match(self.events@, pred_of(*filter)) {
                None => r is None,
                Some(i) => r matches Some(k) && k == i,
            },
            r matches Some(k) ==> k < self.events@.len(),
    {
        let ghost p = pred_of(*filter);
        let mut i: usize = 0;
        while i < self.events.len()
            invariant
                is_filter(*filter),
                p == pred_of(*filter),
                i <= self.events@.len(),
                first_match(self.events@.subrange(0, i as int), p) is None,
            decreases self.events@.len() - i,
        {
            let accepted = filter(&self.events[i]);
            assert(self.events@.subrange(0, i + 1).drop_last() =~= self.events@.subrange(
                0,
                i as int,
            ));
            assert(p(self.events@[i as int]) == accepted);
            if accepted {
                proof {
                    lemma_first_match_extends(self.events@, p, i + 1);
                }
                return Some(i);
            }
            i = i + 1;
        }
        assert(self.events@.subrange(0, i as int) =~= self.events@);
        None
    }

    /// Removes and returns the oldest buffered event that matches `filter`; the others keep
    /// their order.
    pub fn take_match<F: Fn(&Event) -> bool>(&mut self, filter: &F) -> (r: Option<Event>)
        requires
            is_filter(*filter),
        ensures
            final(self).passed_over() == old(self).passed_over(),
            match first_match(old(self).queued(), pred_of(*filter)) {
                None => r is None && final(self).queued() == old(self).queued(),
                Some(i) => r == Some(old(self).queued()[i]) && final(self).queued() == old(
                    self,
                ).queued().remove(i),
            },
    {
        match self.find(filter) {
            None => None,
            Some(i) => self.events.remove(i),
        }
    }

    /// Puts the passed-over events back behind the buffered ones, in the order they arrived.
    pub fn finish(&mut self)
        ensures
            final(self).queued() == old(self).queued() + old(self).passed_over(),
            final(self).passed_over() == Seq::<Event>::empty(),
            final(self).is_idle(),
    {
        self.events.append(&mut self.skipped);
    }

    /// One round of a poll, after a draw from the source that gave `drawn`; `elapsed` says
    /// whether the poll's time is up. A matching event joins the buffer behind the events
    /// passed over before it, so a read with the same filter finds it first.
    pub fn poll_step<F: Fn(&Event) -> bool>(&mut self, drawn: Drawn, elapsed: bool, filter: &F) -> (r:
        PollStep)
        requires
            is_filter(*filter),
        ensures
            match drawn {
                Drawn::Event(e) => if admits(*filter, e) {
                    &&& r == PollStep::Matched
                    &&& final(self).queued() == old(self).queued() + old(self).passed_over().push(e)
                    &&& final(self).passed_over() == Seq::<Event>::empty()
                } else if elapsed {
                    &&& r == PollStep::NoMatch
                    &&& final(self).queued() == old(self).queued() + old(self).passed_over().push(e)
                    &&& final(self).passed_over() == Seq::<Event>::empty()
                } else {
                    &&& r == PollStep::Continue
                    &&& final(self).queued() == old(self).queued()
                    &&& final(self).passed_over() == old(self).passed_over().push(e)
                },
                Drawn::Empty => if elapsed {
                    &&& r == PollStep::NoMatch
                    &&& final(self).queued() == old(self).queued() + old(self).passed_over()
                    &&& final(self).passed_over() == Seq::<Event>::empty()
                } else {
                    &&& r == PollStep::Continue
                    &&& final(self).queued() == old(self).queued()
                    &&& final(self).passed_over() == old(self).passed_over()
                },
                Drawn::Stopped => {
                    &&& r == PollStep::NoMatch
                    &&& final(self).queued() == old(self).queued() + old(self).passed_over()
                    &&& final(self).passed_over() == Seq::<Event>::empty()
                },
            },
            final(self).queued().subrange(0, old(self).queued().len() as int) == old(self).queued(),
            r != PollStep::Continue ==> final(self).is_idle(),
            old(self).is_idle() && !(drawn is Event) ==> final(self).queued() == old(self).queued()
                && final(self).is_idle(),
    {
        let r = match drawn {
            Drawn::Event(e) => {
                let accepted = filter(&e);
                self.skipped.push_back(e);
                if accepted {
                    self.finish();
                    PollStep::Matched
                } else if elapsed {
                    self.finish();
                    PollStep::NoMatch
                } else {
                    PollStep::Continue
                }
            },
            Drawn::Empty => {
                if elapsed {
                    self.finish();
                    PollStep::NoMatch
                } else {
                    PollStep::Continue
                }
            },
            Drawn::Stopped => {
                self.finish();
                PollStep::NoMatch
            },
        };
        assert(self.events@.subrange(0, old(self).events@.len() as int) =~= old(self).events@);
        assert(old(self).skipped@.len() == 0 ==> old(self).events@ + old(self).skipped@ =~= old(
            self,
        ).events@);
        r
    }

    /// One round of a read, after a draw from the source that gave `drawn`. The matching
    /// event is handed out and the events passed over before it join the buffer.
    pub fn read_step<F: Fn(&Event) -> bool>(&mut self, drawn: Drawn, filter: &F) -> (r: ReadStep)
        requires
            is_filter(*filter),
        ensures
            match drawn {
                Drawn::Event(e) => if admits(*filter, e) {
                    &&& r == ReadStep::Done(e)
                    &&& final(self).queued() == old(self).queued() + old(self).passed_over()
                    &&& final(self).passed_over() == Seq::<Event>::empty()
                } else {
                    &&& r == ReadStep::Continue
                    &&& final(self).queued() == old(self).queued()
                    &&& final(self).passed_over() == old(self).passed_over().push(e)
                },
                Drawn::Empty => {
                    &&& r == ReadStep::Continue
                    &&& final(self).queued() == old(self).queued()
                    &&& final(self).passed_over() == old(self).passed_over()
                },
                Drawn::Stopped => {
                    &&& r == ReadStep::Stopped
                    &&& final(self).queued() == old(self).queued() + old(self).passed_over()
                    &&& final(self).passed_over() == Seq::<Event>::empty()
                },
            },
            !(r is Continue) ==> final(self).is_idle(),
    {
        match drawn {
            Drawn::Event(e) => {
                if filter(&e) {
                    self.finish();
                    ReadStep::Done(e)
                } else {
                    self.skipped.push_back(e);
                    ReadStep::Continue
                }
            },
            Drawn::Empty => ReadStep::Continue,
            Drawn::Stopped => {
                self.finish();
                ReadStep::Stopped
            },
        }
    }
}

} // verus!
