//! What a caller subscribes to: an instrument on a venue, and the kind of
//! stream wanted for it.

use vstd::prelude::*;
use crate::model::{Instrument, SubscriptionId};

verus! {

/// Stream of public trades.
#[derive(Clone, Copy, Debug, Default, PartialEq, Eq, Hash, Structural)]
pub struct PublicTrades;

/// Stream of best bid and best ask.
#[derive(Clone, Copy, Debug, Default, PartialEq, Eq, Hash, Structural)]
pub struct OrderBooksL1;

/// Stream of full order books.
#[derive(Clone, Copy, Debug, Default, PartialEq, Eq, Hash, Structural)]
pub struct OrderBooksL2;

/// One instrument on one venue, for one kind of stream.
#[derive(Clone, Debug, PartialEq, Eq)]
pub struct Subscription<Exchange, Kind> {
    pub exchange: Exchange,
    pub instrument: Instrument,
    pub kind: Kind,
}

/// What is kept per subscription, each under the key of its subscription.
#[derive(Debug)]
pub struct SubscriptionMap<T> {
    pub entries: Vec<(SubscriptionId, T)>,
}

impl<T> SubscriptionMap<T> {
    /// No key occurs twice.
    pub open spec fn wf(&self) -> bool {
        forall|i: int, j: int|
            0 <= i < j < self.entries@.len() ==> (#[trigger] self.entries@[i]).0@ != (
            #[trigger] self.entries@[j]).0@
    }

    /// Whether something is kept under `key`.
    pub open spec fn has(&self, key: Seq<char>) -> bool {
        exists|i: int| 0 <= i < self.entries@.len() && (#[trigger] self.entries@[i]).0@ == key
    }

    /// The place of what is kept under `key`, where there is something.
    pub open spec fn place(&self, key: Seq<char>) -> int {
        choose|i: int| 0 <= i < self.entries@.len() && (#[trigger] self.entries@[i]).0@ == key
    }

    /// What is kept under `key`, where there is something.
    pub open spec fn value(&self, key: Seq<char>) -> T {
        self.entries@[self.place(key)].1
    }

    /// In a well-formed map, what stands at a place is what is kept under
    /// the key at that place.
    pub proof fn lemma_place(&self, at: int)
        requires
            self.wf(),
            0 <= at < self.entries@.len(),
        ensures
            self.has(self.entries@[at].0@),
            self.place(self.entries@[at].0@) == at,
            self.value(self.entries@[at].0@) == self.entries@[at].1,
    {
        let key = self.entries@[at].0@;
        assert(self.has(key));
        let found = self.place(key);
        if found < at {
            assert(self.entries@[found].0@ != self.entries@[at].0@);
        } else if found > at {
            assert(self.entries@[at].0@ != self.entries@[found].0@);
        }
    }

    /// A map that keeps nothing.
    pub fn new() -> (map: Self)
        ensures
            map.wf(),
            map.entries@.len() == 0,
    {
        SubscriptionMap { entries: Vec::new() }
    }

    /// Whether the map is well formed.
    pub fn is_wf(&self) -> (wf: bool)
        ensures
            wf == self.wf(),
    {
        let mut j: usize = 0;
        while j < self.entries.len()
            invariant
                j <= self.entries.len(),
                forall|a: int, b: int|
                    0 <= a < b < j ==> (#[trigger] self.entries@[a]).0@ != (#[trigger] self.entries@[b]).0@,
            decreases self.entries.len() - j,
        {
            let mut i: usize = 0;
            while i < j
                invariant
                    i <= j,
                    j < self.entries.len(),
                    forall|a: int| 0 <= a < i ==> (#[trigger] self.entries@[a]).0@ != self.entries@[j as int].0@,
                decreases j - i,
            {
                if self.entries[i].0.same(&self.entries[j].0) {
                    proof {
                        assert(self.entries@[i as int].0@ == self.entries@[j as int].0@);
                    }
                    return false;
                }
                i += 1;
            }
            j += 1;
        }
        true
    }

    /// The place of what is kept under `key`, if there is something.
    pub fn find(&self, key: &SubscriptionId) -> (place: Option<usize>)
        requires
            self.wf(),
        ensures
            match place {
                Some(i) => self.has(key@) && i == self.place(key@) && i < self.entries@.len(),
                None => !self.has(key@),
            },
    {
        let mut i: usize = 0;
        while i < self.entries.len()
            invariant
                self.wf(),
                i <= self.entries.len(),
                forall|k: int| 0 <= k < i ==> (#[trigger] self.entries@[k]).0@ != key@,
            decreases self.entries.len() - i,
        {
            if self.entries[i].0.same(key) {
                proof {
                    self.lemma_place(i as int);
                }
                return Some(i);
            }
            i += 1;
        }
        None
    }

    /// Keeps `value` under `key`, in place of what was kept under that key
    /// if there was something. Everything else stays where it was.
    pub fn insert(&mut self, key: SubscriptionId, value: T)
        requires
            old(self).wf(),
        ensures
            final(self).wf(),
            final(self).has(key@),
            final(self).value(key@) == value,
            forall|other: Seq<char>|
                other != key@ ==> (#[trigger] final(self).has(other) <==> old(self).has(other)),
            forall|other: Seq<char>|
                other != key@ && old(self).has(other) ==> #[trigger] final(self).value(other) == old(self).value(other),
            forall|i: int|
                0 <= i < final(self).entries@.len() ==> (#[trigger] final(self).entries@[i]).1 == value
                    || (i < old(self).entries@.len() && final(self).entries@[i] == old(self).entries@[i]),
    {
        let place = self.find(&key);
        let ghost before = self.entries@;
        let ghost wanted = key@;
        let at: usize = match place {
            Some(i) => {
                self.entries.set(i, (key, value));
                i
            },
            None => {
                self.entries.push((key, value));
                self.entries.len() - 1
            },
        };
        proof {
            let after = self.entries@;
            assert(after[at as int].0@ == wanted);
            assert(after[at as int].1 == value);
            assert forall|i: int| 0 <= i < after.len() && i != at implies after[i] == before[i] by {}
            assert(self.wf()) by {
                assert forall|i: int, j: int| 0 <= i < j < after.len() implies (#[trigger] after[i]).0@
                    != (#[trigger] after[j]).0@ by {
                    if i != at && j != at {
                        assert(before[i].0@ != before[j].0@);
                    } else if place is Some {
                        assert(before[at as int].0@ == wanted);
                        assert(before[i].0@ != before[j].0@);
                    } else {
                        let k = if i == at { j } else { i };
                        assert(before[k].0@ != wanted) by {
                            if before[k].0@ == wanted {
                                assert(old(self).has(wanted));
                            }
                        }
                    }
                }
            }
            self.lemma_place(at as int);
            assert forall|other: Seq<char>| other != wanted implies (#[trigger] self.has(other)
                <==> old(self).has(other)) by {
                if self.has(other) {
                    let i = self.place(other);
                    assert(after[i] == before[i]);
                    assert(before[i].0@ == other);
                }
                if old(self).has(other) {
                    let i = old(self).place(other);
                    assert(i != at) by {
                        if i == at {
                            assert(place is Some);
                            assert(before[at as int].0@ == wanted);
                        }
                    }
                    assert(after[i] == before[i]);
                    assert(after[i].0@ == other);
                }
            }
            assert forall|other: Seq<char>| other != wanted && old(self).has(other) implies #[trigger] self.value(
                other,
            ) == old(self).value(other) by {
                let i = old(self).place(other);
                assert(i != at) by {
                    if i == at {
                        assert(place is Some);
                        assert(before[at as int].0@ == wanted);
                    }
                }
                assert(after[i] == before[i]);
                self.lemma_place(i);
            }
        }
    }
}

} // verus!
