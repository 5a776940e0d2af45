//! The queues that normalised events are handed out through: one per
//! venue, and their union.
//!
//! The connections themselves live outside this library. Each of them
//! sends the events it produced, in the order in which it produced them;
//! the library keeps them apart by venue and hands a venue's queue, or all
//! of them joined, to the consumer.

use vstd::prelude::*;
use crate::error::SocketError;
use crate::event::MarketEvent;
use crate::model::{ExchangeId, Instrument};

verus! {

/// The events of `events` that come from `venue`, in the same order.
pub open spec fn of_venue<T>(events: Seq<MarketEvent<T>>, venue: ExchangeId) -> Seq<MarketEvent<T>>
    decreases events.len(),
{
    if events.len() == 0 {
        events
    } else if events.last().exchange == venue {
        of_venue(events.drop_last(), venue).push(events.last())
    } else {
        of_venue(events.drop_last(), venue)
    }
}

/// Whether every event of `events` comes from `venue`.
pub open spec fn all_from<T>(events: Seq<MarketEvent<T>>, venue: ExchangeId) -> bool {
    forall|k: int| 0 <= k < events.len() ==> (#[trigger] events[k]).exchange == venue
}

/// Whether `queues` holds a queue for `venue`.
pub open spec fn has_queue<T>(queues: Seq<(ExchangeId, Vec<MarketEvent<T>>)>, venue: ExchangeId) -> bool {
    exists|i: int| 0 <= i < queues.len() && (#[trigger] queues[i]).0 == venue
}

/// The place of the queue for `venue` in `queues`, where there is one.
pub open spec fn queue_place<T>(queues: Seq<(ExchangeId, Vec<MarketEvent<T>>)>, venue: ExchangeId) -> int {
    choose|i: int| 0 <= i < queues.len() && (#[trigger] queues[i]).0 == venue
}

/// What waits in the queue for `venue`: nothing where there is no such
/// queue.
pub open spec fn queued<T>(queues: Seq<(ExchangeId, Vec<MarketEvent<T>>)>, venue: ExchangeId) -> Seq<
    MarketEvent<T>,
> {
    if has_queue(queues, venue) {
        queues[queue_place(queues, venue)].1@
    } else {
        Seq::empty()
    }
}

/// The queues one after the other.
pub open spec fn joined<T>(queues: Seq<(ExchangeId, Vec<MarketEvent<T>>)>) -> Seq<MarketEvent<T>>
    decreases queues.len(),
{
    if queues.len() == 0 {
        Seq::empty()
    } else {
        joined(queues.drop_last()) + queues.last().1@
    }
}

/// No venue has two queues, and a venue's queue holds events of that venue
/// alone.
pub open spec fn sorted_by_venue<T>(queues: Seq<(ExchangeId, Vec<MarketEvent<T>>)>) -> bool {
    &&& forall|i: int, j: int|
        0 <= i < j < queues.len() ==> (#[trigger] queues[i]).0 != (#[trigger] queues[j]).0
    &&& forall|i: int| 0 <= i < queues.len() ==> all_from((#[trigger] queues[i]).1@, queues[i].0)
}

/// The per-venue queues of normalised events.
#[derive(Debug)]
pub struct Streams<T> {
    pub streams: Vec<(ExchangeId, Vec<MarketEvent<T>>)>,
}

impl<T> Streams<T> {
    /// No venue has two queues, and a venue's queue holds events of that
    /// venue alone.
    pub open spec fn wf(&self) -> bool {
        sorted_by_venue(self.streams@)
    }

    /// Whether there is a queue for `venue`.
    pub open spec fn has(&self, venue: ExchangeId) -> bool {
        has_queue(self.streams@, venue)
    }

    /// What waits in the queue for `venue`.
    pub open spec fn queue(&self, venue: ExchangeId) -> Seq<MarketEvent<T>> {
        queued(self.streams@, venue)
    }

    /// Whether the queues are well formed.
    pub fn is_wf(&self) -> (wf: bool)
        ensures
            wf == self.wf(),
    {
        let mut j: usize = 0;
        while j < self.streams.len()
            invariant
                j <= self.streams.len(),
                forall|k: int|
                    0 <= k < j ==> all_from((#[trigger] self.streams@[k]).1@, self.streams@[k].0),
                forall|a: int, b: int|
                    0 <= a < b < j ==> (#[trigger] self.streams@[a]).0 != (#[trigger] self.streams@[b]).0,
            decreases self.streams.len() - j,
        {
            let venue = self.streams[j].0;
            let mut k: usize = 0;
            while k < self.streams[j].1.len()
                invariant
                    j < self.streams.len(),
                    venue == self.streams@[j as int].0,
                    k <= self.streams@[j as int].1@.len(),
                    forall|e: int| 0 <= e < k ==> (#[trigger] self.streams@[j as int].1@[e]).exchange == venue,
                decreases self.streams@[j as int].1@.len() - k,
            {
                if self.streams[j].1[k].exchange != venue {
                    proof {
                        assert(!all_from(self.streams@[j as int].1@, self.streams@[j as int].0));
                    }
                    return false;
                }
                k += 1;
            }
            let mut i: usize = 0;
            while i < j
                invariant
                    i <= j,
                    j < self.streams.len(),
                    venue == self.streams@[j as int].0,
                    forall|a: int| 0 <= a < i ==> (#[trigger] self.streams@[a]).0 != venue,
                decreases j - i,
            {
                if self.streams[i].0 == venue {
                    proof {
                        assert(self.streams@[i as int].0 == self.streams@[j as int].0);
                    }
                    return false;
                }
                i += 1;
            }
            j += 1;
        }
        true
    }

    /// No queues at all.
    pub fn new() -> (streams: Self)
        ensures
            streams.wf(),
            streams.streams@.len() == 0,
            forall|venue: ExchangeId| !streams.has(venue),
    {
        Streams { streams: Vec::new() }
    }

    /// The place of the queue for `venue`, if there is one.
    fn find(&self, venue: ExchangeId) -> (place: Option<usize>)
        requires
            self.wf(),
        ensures
            match place {
                Some(i) => self.has(venue) && i == queue_place(self.streams@, venue) && i
                    < self.streams@.len(),
                None => !self.has(venue),
            },
    {
        let mut i: usize = 0;
        while i < self.streams.len()
            invariant
                self.wf(),
                i <= self.streams.len(),
                forall|k: int| 0 <= k < i ==> (#[trigger] self.streams@[k]).0 != venue,
            decreases self.streams.len() - i,
        {
            if self.streams[i].0 == venue {
                proof {
                    assert(self.streams@[i as int].0 == venue);
                    assert(self.has(venue));
                    let found = queue_place(self.streams@, venue);
                    if found < i {
                        assert(self.streams@[found].0 != self.streams@[i as int].0);
                    } else if found > i {
                        assert(self.streams@[i as int].0 != self.streams@[found].0);
                    }
                }
                return Some(i);
            }
            i += 1;
        }
        None
    }

    /// Opens an empty queue for `venue`, unless it has one already.
    pub fn open(&mut self, venue: ExchangeId)
        requires
            old(self).wf(),
        ensures
            final(self).wf(),
            final(self).has(venue),
            final(self).queue(venue) == old(self).queue(venue),
            forall|other: ExchangeId|
                other != venue ==> (#[trigger] final(self).has(other) <==> old(self).has(other)),
            forall|other: ExchangeId|
                other != venue ==> #[trigger] final(self).queue(other) == old(self).queue(other),
            joined(final(self).streams@) == joined(old(self).streams@),
    {
        match self.find(venue) {
            Some(_) => {},
            None => {
                let ghost before = self.streams@;
                self.streams.push((venue, Vec::new()));
                proof {
                    let after = self.streams@;
                    let last = before.len() as int;
                    assert(after.drop_last() =~= before);
                    assert(after[last].0 == venue);
                    assert(self.wf()) by {
                        assert forall|i: int, j: int| 0 <= i < j < after.len() implies (
                        #[trigger] after[i]).0 != (#[trigger] after[j]).0 by {
                            if j < last {
                                assert(before[i].0 != before[j].0);
                            } else {
                                assert(before[i].0 != venue);
                            }
                        }
                        assert forall|i: int| 0 <= i < after.len() implies all_from(
                            (#[trigger] after[i]).1@,
                            after[i].0,
                        ) by {
                            if i < last {
                                assert(after[i] == before[i]);
                            }
                        }
                    }
                    lemma_place(after, last);
                    assert forall|other: ExchangeId| other != venue implies (#[trigger] self.has(other)
                        <==> old(self).has(other)) && self.queue(other) == old(self).queue(other) by {
                        if self.has(other) {
                            let i = queue_place(after, other);
                            assert(after[i] == before[i]);
                            lemma_place(before, i);
                        }
                        if old(self).has(other) {
                            let i = queue_place(before, other);
                            assert(after[i] == before[i]);
                            lemma_place(after, i);
                        }
                    }
                    assert(joined(after) =~= joined(before));
                }
            },
        }
    }

    /// Puts an event at the end of its venue's queue. An event of a venue
    /// without a queue is dropped, and `false` says so.
    pub fn send(&mut self, event: MarketEvent<T>) -> (sent: bool)
        requires
            old(self).wf(),
        ensures
            final(self).wf(),
            sent == old(self).has(event.exchange),
            forall|venue: ExchangeId| #[trigger] final(self).has(venue) <==> old(self).has(venue),
            sent ==> final(self).queue(event.exchange) == old(self).queue(event.exchange).push(event),
            forall|venue: ExchangeId|
                venue != event.exchange ==> #[trigger] final(self).queue(venue) == old(self).queue(venue),
            !sent ==> *final(self) == *old(self),
    {
        let venue = event.exchange;
        match self.find(venue) {
            Some(at) => {
                let ghost before = self.streams@;
                let entry = &mut self.streams[at];
                entry.1.push(event);
                proof {
                    let after = self.streams@;
                    assert(after[at as int].0 == before[at as int].0);
                    assert(after[at as int].1@ == before[at as int].1@.push(event));
                    assert forall|i: int| 0 <= i < after.len() && i != at implies after[i]
                        == before[i] by {}
                    assert(self.wf()) by {
                        assert forall|i: int, j: int| 0 <= i < j < after.len() implies (
                        #[trigger] after[i]).0 != (#[trigger] after[j]).0 by {
                            assert(after[i].0 == before[i].0);
                            assert(after[j].0 == before[j].0);
                            assert(before[i].0 != before[j].0);
                        }
                        assert forall|i: int| 0 <= i < after.len() implies all_from(
                            (#[trigger] after[i]).1@,
                            after[i].0,
                        ) by {
                            if i != at {
                                assert(after[i] == before[i]);
                            } else {
                                assert(all_from(before[i].1@, before[i].0));
                            }
                        }
                    }
                    assert forall|other: ExchangeId| #[trigger] self.has(other) <==> old(self).has(
                        other,
                    ) by {
                        if self.has(other) {
                            let i = queue_place(after, other);
                            assert(before[i].0 == other);
                        }
                        if old(self).has(other) {
                            let i = queue_place(before, other);
                            assert(after[i].0 == other);
                        }
                    }
                    lemma_place(after, at as int);
                    assert forall|other: ExchangeId| other != venue implies #[trigger] self.queue(other)
                        == old(self).queue(other) by {
                        if old(self).has(other) {
                            let i = queue_place(before, other);
                            assert(after[i] == before[i]);
                            lemma_place(after, i);
                        }
                    }
                }
                true
            },
            None => false,
        }
    }

    /// Hands out the queue of `venue`, which this value then holds no
    /// more. Where there is no queue for `venue`, nothing is handed out and
    /// nothing changes.
    pub fn select(&mut self, venue: ExchangeId) -> (queue: Option<Vec<MarketEvent<T>>>)
        requires
            old(self).wf(),
        ensures
            final(self).wf(),
            match queue {
                Some(events) => {
                    &&& old(self).has(venue)
                    &&& events@ == old(self).queue(venue)
                    &&& all_from(events@, venue)
                    &&& !final(self).has(venue)
                },
                None => !old(self).has(venue) && *final(self) == *old(self),
            },
            forall|other: ExchangeId|
                other != venue ==> (#[trigger] final(self).has(other) <==> old(self).has(other)),
            forall|other: ExchangeId|
                other != venue ==> #[trigger] final(self).queue(other) == old(self).queue(other),
    {
        match self.find(venue) {
            Some(at) => {
                let ghost before = self.streams@;
                let entry = self.streams.remove(at);
                proof {
                    let after = self.streams@;
                    assert(all_from(before[at as int].1@, before[at as int].0));
                    assert forall|i: int| 0 <= i < after.len() implies #[trigger] after[i] == before[if i
                        < at {
                        i
                    } else {
                        i + 1
                    }] by {}
                    assert(self.wf()) by {
                        assert forall|i: int, j: int| 0 <= i < j < after.len() implies (
                        #[trigger] after[i]).0 != (#[trigger] after[j]).0 by {
                            let i0 = if i < at { i } else { i + 1 };
                            let j0 = if j < at { j } else { j + 1 };
                            assert(after[i] == before[i0] && after[j] == before[j0]);
                            assert(before[i0].0 != before[j0].0);
                        }
                        assert forall|i: int| 0 <= i < after.len() implies all_from(
                            (#[trigger] after[i]).1@,
                            after[i].0,
                        ) by {
                            let i0 = if i < at { i } else { i + 1 };
                            assert(after[i] == before[i0]);
                        }
                    }
                    assert(!self.has(venue)) by {
                        if self.has(venue) {
                            let i = queue_place(after, venue);
                            let i0 = if i < at { i } else { i + 1 };
                            assert(after[i] == before[i0]);
                            if i0 < at {
                                assert(before[i0].0 != before[at as int].0);
                            } else {
                                assert(before[at as int].0 != before[i0].0);
                            }
                        }
                    }
                    assert forall|other: ExchangeId| other != venue implies (#[trigger] self.has(other)
                        <==> old(self).has(other)) by {
                        if self.has(other) {
                            let i = queue_place(after, other);
                            let i0 = if i < at { i } else { i + 1 };
                            assert(after[i] == before[i0]);
                            lemma_place(before, i0);
                        }
                        if old(self).has(other) {
                            let i0 = queue_place(before, other);
                            let i = if i0 < at { i0 } else { i0 - 1 };
                            assert(after[i] == before[i0]);
                            lemma_place(after, i);
                        }
                    }
                    assert forall|other: ExchangeId| other != venue implies #[trigger] self.queue(other)
                        == old(self).queue(other) by {
                        if self.has(other) {
                            let i = queue_place(after, other);
                            let i0 = if i < at { i } else { i + 1 };
                            assert(after[i] == before[i0]);
                            lemma_place(before, i0);
                        }
                        if old(self).has(other) {
                            let i0 = queue_place(before, other);
                            let i = if i0 < at { i0 } else { i0 - 1 };
                            assert(after[i] == before[i0]);
                            lemma_place(after, i);
                        }
                    }
                }
                Some(entry.1)
            },
            None => None,
        }
    }

    /// All the queues as one: the events of each venue in the order in
    /// which they were sent, one venue after the other.
    pub fn join(self) -> (events: Vec<MarketEvent<T>>)
        requires
            self.wf(),
        ensures
            events@ == joined(self.streams@),
    {
        let mut streams = self.streams;
        let ghost all = streams@;
        let mut events: Vec<MarketEvent<T>> = Vec::new();
        let mut n: usize = 0;
        while n < streams.len()
            invariant
                n <= streams.len(),
                streams@.len() == all.len(),
                forall|i: int| n <= i < all.len() ==> (#[trigger] streams@[i]).1@ == all[i].1@,
                events@ == joined(all.take(n as int)),
            decreases streams.len() - n,
        {
            let ghost before = streams@;
            let entry = &mut streams[n];
            events.append(&mut entry.1);
            proof {
                assert(all.take(n + 1).drop_last() =~= all.take(n as int));
                assert(all.take(n + 1).last() == all[n as int]);
                assert forall|i: int| n + 1 <= i < all.len() implies (#[trigger] streams@[i]).1@
                    == all[i].1@ by {
                    assert(streams@[i] == before[i]);
                }
            }
            n += 1;
        }
        proof {
            assert(all.take(n as int) =~= all);
        }
        events
    }
}

/// In queues kept apart by venue, the queue of a venue is found at the one
/// place that holds it.
pub proof fn lemma_place<T>(queues: Seq<(ExchangeId, Vec<MarketEvent<T>>)>, at: int)
    requires
        0 <= at < queues.len(),
        forall|i: int, j: int|
            0 <= i < j < queues.len() ==> (#[trigger] queues[i]).0 != (#[trigger] queues[j]).0,
    ensures
        has_queue(queues, queues[at].0),
        queue_place(queues, queues[at].0) == at,
        queued(queues, queues[at].0) == queues[at].1@,
{
    let venue = queues[at].0;
    assert(has_queue(queues, venue));
    let found = queue_place(queues, venue);
    if found < at {
        assert(queues[found].0 != queues[at].0);
    } else if found > at {
        assert(queues[at].0 != queues[found].0);
    }
}

/// Picking a venue's events out of two runs of events, one after the
/// other, is picking them out of each.
pub proof fn lemma_of_venue_add<T>(first: Seq<MarketEvent<T>>, second: Seq<MarketEvent<T>>, venue: ExchangeId)
    ensures
        of_venue(first + second, venue) == of_venue(first, venue) + of_venue(second, venue),
    decreases second.len(),
{
    if second.len() == 0 {
        assert(first + second =~= first);
        assert(of_venue(first, venue) + of_venue(second, venue) =~= of_venue(first, venue));
    } else {
        lemma_of_venue_add(first, second.drop_last(), venue);
        assert((first + second).drop_last() =~= first + second.drop_last());
        assert((first + second).last() == second.last());
        if second.last().exchange == venue {
            assert(of_venue(first + second, venue) =~= of_venue(first, venue) + of_venue(
                second,
                venue,
            ));
        }
    }
}

/// Of a queue that holds events of one venue alone, that venue has all the
/// events and any other venue none.
pub proof fn lemma_of_venue_queue<T>(events: Seq<MarketEvent<T>>, source: ExchangeId, venue: ExchangeId)
    requires
        all_from(events, source),
    ensures
        source == venue ==> of_venue(events, venue) == events,
        source != venue ==> of_venue(events, venue) == Seq::<MarketEvent<T>>::empty(),
    decreases events.len(),
{
    if events.len() > 0 {
        let earlier = events.drop_last();
        assert(all_from(earlier, source)) by {
            assert forall|k: int| 0 <= k < earlier.len() implies (#[trigger] earlier[k]).exchange
                == source by {
                assert(earlier[k] == events[k]);
            }
        }
        lemma_of_venue_queue(earlier, source, venue);
        assert(events[events.len() - 1].exchange == source);
        if source == venue {
            assert(earlier.push(events.last()) =~= events);
        }
    }
}

/// The queues joined are the disjoint union of the queues: the events of
/// the join that come from a venue are exactly that venue's queue, in that
/// queue's order, and a venue without a queue has no event in the join.
pub proof fn lemma_join_is_disjoint_union<T>(
    queues: Seq<(ExchangeId, Vec<MarketEvent<T>>)>,
    venue: ExchangeId,
)
    requires
        sorted_by_venue(queues),
    ensures
        of_venue(joined(queues), venue) == queued(queues, venue),
    decreases queues.len(),
{
    if queues.len() > 0 {
        let earlier = queues.drop_last();
        let last = queues.last();
        let at = queues.len() - 1;
        assert(sorted_by_venue(earlier)) by {
            assert forall|i: int, j: int| 0 <= i < j < earlier.len() implies (#[trigger] earlier[i]).0
                != (#[trigger] earlier[j]).0 by {
                assert(earlier[i] == queues[i] && earlier[j] == queues[j]);
            }
            assert forall|i: int| 0 <= i < earlier.len() implies all_from(
                (#[trigger] earlier[i]).1@,
                earlier[i].0,
            ) by {
                assert(earlier[i] == queues[i]);
            }
        }
        lemma_join_is_disjoint_union(earlier, venue);
        lemma_of_venue_add(joined(earlier), last.1@, venue);
        assert(all_from(queues[at].1@, queues[at].0));
        lemma_of_venue_queue(last.1@, last.0, venue);
        if last.0 == venue {
            lemma_place(queues, at);
            assert(!has_queue(earlier, venue)) by {
                if has_queue(earlier, venue) {
                    let i = queue_place(earlier, venue);
                    assert(earlier[i] == queues[i]);
                    assert(queues[i].0 != queues[at].0);
                }
            }
            assert(of_venue(joined(queues), venue) =~= queued(queues, venue));
        } else {
            if has_queue(earlier, venue) {
                let i = queue_place(earlier, venue);
                assert(earlier[i] == queues[i]);
                lemma_place(queues, i);
                lemma_place(earlier, i);
            } else {
                assert(!has_queue(queues, venue)) by {
                    if has_queue(queues, venue) {
                        let i = queue_place(queues, venue);
                        assert(i != at);
                        assert(earlier[i] == queues[i]);
                    }
                }
            }
            assert(of_venue(joined(queues), venue) =~= queued(queues, venue));
        }
    }
}

/// How many events wait in all the queues together.
pub open spec fn waiting<T>(queues: Seq<(ExchangeId, Vec<MarketEvent<T>>)>) -> nat
    decreases queues.len(),
{
    if queues.len() == 0 {
        0
    } else {
        waiting(queues.drop_last()) + queues.last().1@.len()
    }
}

/// The join holds as many events as all the queues together.
pub proof fn lemma_join_counts_every_event<T>(queues: Seq<(ExchangeId, Vec<MarketEvent<T>>)>)
    ensures
        joined(queues).len() == waiting(queues),
    decreases queues.len(),
{
    if queues.len() > 0 {
        lemma_join_counts_every_event(queues.drop_last());
    }
}

/// Whether one of the first `upto` subscriptions of `group` is for
/// `venue`.
pub open spec fn names_within(group: Seq<(ExchangeId, Instrument)>, upto: int, venue: ExchangeId) -> bool {
    exists|k: int| 0 <= k < upto && k < group.len() && (#[trigger] group[k]).0 == venue
}

/// Whether one of the first `upto` groups was set up and holds a
/// subscription for `venue`. `outcomes` holds, group by group, the failure
/// to set the group up, or nothing where it was set up.
pub open spec fn ready_within(
    groups: Seq<Vec<(ExchangeId, Instrument)>>,
    outcomes: Seq<Option<SocketError>>,
    upto: int,
    venue: ExchangeId,
) -> bool {
    exists|g: int|
        0 <= g < upto && g < groups.len() && g < outcomes.len() && (#[trigger] outcomes[g]) is None
            && names_within(groups[g]@, groups[g]@.len() as int, venue)
}

/// The groups that could not be set up, in order, each with its failure.
pub open spec fn failures(outcomes: Seq<Option<SocketError>>) -> Seq<(usize, SocketError)>
    decreases outcomes.len(),
{
    if outcomes.len() == 0 {
        Seq::empty()
    } else {
        let earlier = failures(outcomes.drop_last());
        match outcomes.last() {
            Some(error) => earlier.push(((outcomes.len() - 1) as usize, error)),
            None => earlier,
        }
    }
}

/// Whether `streams` is what setting up `groups` with `outcomes` opens:
/// an empty queue for each venue of a group that was set up, and no other.
pub open spec fn opened<T>(
    streams: &Streams<T>,
    groups: Seq<Vec<(ExchangeId, Instrument)>>,
    outcomes: Seq<Option<SocketError>>,
) -> bool {
    &&& streams.wf()
    &&& joined(streams.streams@).len() == 0
    &&& forall|venue: ExchangeId| #[trigger]
        streams.has(venue) <==> ready_within(groups, outcomes, groups.len() as int, venue)
}

/// What is left where some group could not be set up: the failures, each
/// with the number of its group, and the queues of the groups that were set
/// up, with which the caller may go on.
#[derive(Debug)]
pub struct InitError<T> {
    pub failed: Vec<(usize, SocketError)>,
    pub streams: Streams<T>,
}

/// The groups of subscriptions that a caller asked for. Each group gets a
/// connection of its own.
#[derive(Debug)]
pub struct StreamBuilder {
    pub groups: Vec<Vec<(ExchangeId, Instrument)>>,
}

proof fn lemma_names_step(group: Seq<(ExchangeId, Instrument)>, k: int, venue: ExchangeId)
    requires
        0 <= k < group.len(),
    ensures
        names_within(group, k + 1, venue) <==> (names_within(group, k, venue) || group[k].0 == venue),
{
    if names_within(group, k + 1, venue) {
        let w = choose|w: int| 0 <= w < k + 1 && w < group.len() && (#[trigger] group[w]).0 == venue;
        if w < k {
            assert(names_within(group, k, venue));
        }
    }
    if names_within(group, k, venue) {
        let w = choose|w: int| 0 <= w < k && w < group.len() && (#[trigger] group[w]).0 == venue;
        assert(group[w].0 == venue);
    }
    if group[k].0 == venue {
        assert(names_within(group, k + 1, venue));
    }
}

proof fn lemma_ready_step(
    groups: Seq<Vec<(ExchangeId, Instrument)>>,
    outcomes: Seq<Option<SocketError>>,
    g: int,
    venue: ExchangeId,
)
    requires
        0 <= g < groups.len(),
        groups.len() == outcomes.len(),
    ensures
        ready_within(groups, outcomes, g + 1, venue) <==> (ready_within(groups, outcomes, g, venue)
            || (outcomes[g] is None && names_within(groups[g]@, groups[g]@.len() as int, venue))),
{
    if ready_within(groups, outcomes, g + 1, venue) {
        let w = choose|w: int|
            0 <= w < g + 1 && w < groups.len() && w < outcomes.len() && (#[trigger] outcomes[w]) is None
                && names_within(groups[w]@, groups[w]@.len() as int, venue);
        if w < g {
            assert(ready_within(groups, outcomes, g, venue));
        }
    }
    if ready_within(groups, outcomes, g, venue) {
        let w = choose|w: int|
            0 <= w < g && w < groups.len() && w < outcomes.len() && (#[trigger] outcomes[w]) is None
                && names_within(groups[w]@, groups[w]@.len() as int, venue);
        assert(outcomes[w] is None);
    }
    if outcomes[g] is None && names_within(groups[g]@, groups[g]@.len() as int, venue) {
        assert(ready_within(groups, outcomes, g + 1, venue));
    }
}

impl StreamBuilder {
    /// A builder without groups.
    pub fn new() -> (builder: Self)
        ensures
            builder.groups@.len() == 0,
    {
        StreamBuilder { groups: Vec::new() }
    }

    /// Adds one group of subscriptions, which will share one connection.
    /// Each call makes a group, and so a connection, of its own.
    pub fn subscribe(self, group: Vec<(ExchangeId, Instrument)>) -> (builder: Self)
        ensures
            builder.groups@ == self.groups@.push(group),
    {
        let mut groups = self.groups;
        groups.push(group);
        StreamBuilder { groups }
    }

    /// Opens the queues once every group's connection was tried.
    /// `outcomes` holds, group by group, the failure to set the group up,
    /// or nothing where it was set up. A group that failed stops no other:
    /// each venue of a group that was set up gets its queue. Where no group
    /// failed the queues are handed out; where one did, the failures are,
    /// together with the queues.
    pub fn init<T>(self, outcomes: Vec<Option<SocketError>>) -> (result: Result<
        Streams<T>,
        InitError<T>,
    >)
        requires
            outcomes@.len() == self.groups@.len(),
        ensures
            match result {
                Ok(streams) => failures(outcomes@).len() == 0 && opened(
                    &streams,
                    self.groups@,
                    outcomes@,
                ),
                Err(error) => failures(outcomes@).len() > 0 && error.failed@ == failures(outcomes@)
                    && opened(&error.streams, self.groups@, outcomes@),
            },
    {
        let ghost given = outcomes@;
        let ghost groups = self.groups@;
        let mut outcomes = outcomes;
        let mut streams: Streams<T> = Streams::new();
        let mut failed: Vec<(usize, SocketError)> = Vec::new();
        let mut g: usize = 0;
        proof {
            assert forall|venue: ExchangeId| #[trigger]
                streams.has(venue) <==> ready_within(groups, given, 0, venue) by {}
        }
        while g < self.groups.len()
            invariant
                g <= self.groups.len(),
                groups == self.groups@,
                outcomes@.len() == given.len(),
                given.len() == groups.len(),
                forall|i: int| g <= i < given.len() ==> #[trigger] outcomes@[i] == given[i],
                streams.wf(),
                joined(streams.streams@).len() == 0,
                forall|venue: ExchangeId| #[trigger]
                    streams.has(venue) <==> ready_within(groups, given, g as int, venue),
                failed@ == failures(given.take(g as int)),
            decreases self.groups.len() - g,
        {
            let ghost outcomes_before = outcomes@;
            let slot = &mut outcomes[g];
            let outcome = slot.take();
            proof {
                assert(outcome == given[g as int]);
                assert(given.take(g + 1).drop_last() =~= given.take(g as int));
                assert(given.take(g + 1).last() == given[g as int]);
                assert forall|i: int| g + 1 <= i < given.len() implies #[trigger] outcomes@[i]
                    == given[i] by {
                    assert(outcomes@[i] == outcomes_before[i]);
                }
            }
            match outcome {
                Some(error) => {
                    failed.push((g, error));
                    proof {
                        assert forall|venue: ExchangeId| #[trigger]
                            streams.has(venue) <==> ready_within(groups, given, g + 1, venue) by {
                            lemma_ready_step(groups, given, g as int, venue);
                        }
                    }
                },
                None => {
                    let group = &self.groups[g];
                    let mut k: usize = 0;
                    proof {
                        assert forall|venue: ExchangeId| !names_within(group@, 0, venue) by {}
                    }
                    while k < group.len()
                        invariant
                            k <= group.len(),
                            streams.wf(),
                            joined(streams.streams@).len() == 0,
                            forall|venue: ExchangeId| #[trigger]
                                streams.has(venue) <==> (ready_within(groups, given, g as int, venue)
                                    || names_within(group@, k as int, venue)),
                        decreases group.len() - k,
                    {
                        let ghost had = streams;
                        streams.open(group[k].0);
                        proof {
                            assert forall|venue: ExchangeId| #[trigger]
                                streams.has(venue) <==> (ready_within(groups, given, g as int, venue)
                                    || names_within(group@, k + 1, venue)) by {
                                lemma_names_step(group@, k as int, venue);
                                if venue != group@[k as int].0 {
                                    assert(streams.has(venue) <==> had.has(venue));
                                }
                            }
                        }
                        k += 1;
                    }
                    proof {
                        assert forall|venue: ExchangeId| #[trigger]
                            streams.has(venue) <==> ready_within(groups, given, g + 1, venue) by {
                            lemma_ready_step(groups, given, g as int, venue);
                        }
                    }
                },
            }
            g += 1;
        }
        proof {
            assert(given.take(g as int) =~= given);
        }
        if failed.len() == 0 {
            Ok(streams)
        } else {
            Err(InitError { failed, streams })
        }
    }
}

} // verus!
