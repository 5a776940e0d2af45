//! Turning a venue's book messages into normalised book events, one book
//! and one updater per subscribed instrument.

use vstd::prelude::*;
use crate::book::{Level, OrderBook};
use crate::error::{DataError, SocketError};
use crate::event::{MarketEvent, MarketIter};
use crate::model::{ExchangeId, Instrument, SubscriptionId};
use crate::subscription::SubscriptionMap;

verus! {

/// The book of one instrument with the updater that maintains it.
#[derive(Debug)]
pub struct InstrumentOrderBook<Updater> {
    pub instrument: Instrument,
    pub updater: Updater,
    pub book: OrderBook,
}

/// The rules by which one venue's book messages change a book.
///
/// An updater is made once per subscribed instrument and is the only thing
/// that changes that instrument's book.
pub trait OrderBookUpdater: Sized {
    /// The venue's book message.
    type Update;

    /// Whether the updater is as it is made for a new subscription.
    spec fn started(&self) -> bool;

    /// Whether the updater can count one more update.
    spec fn ready(&self) -> bool;

    /// Whether an updater can be set up for `instrument` at the time
    /// `now`.
    spec fn can_start(instrument: &Instrument, now: i64) -> bool;

    /// Whether `error` is the failure to set up an updater for
    /// `instrument` at the time `now`.
    spec fn start_failure(instrument: &Instrument, now: i64, error: &DataError) -> bool;

    /// Whether the updater can count one more update.
    fn is_ready(&self) -> (ready: bool)
        ensures
            ready == self.ready(),
    ;

    /// The key of the subscription that a message belongs to, if it names
    /// one.
    spec fn subscription(update: &Self::Update) -> Option<Seq<char>>;

    /// What applying `update` at the time `now` does: it takes updater and
    /// book from `pre` and `pre_book` to `post` and `post_book`, and hands
    /// out `result`.
    spec fn updated(
        pre: &Self,
        pre_book: &OrderBook,
        update: &Self::Update,
        now: i64,
        post: &Self,
        post_book: &OrderBook,
        result: &Result<Option<OrderBook>, DataError>,
    ) -> bool;

    /// The key of the subscription that a message belongs to, if it names
    /// one.
    fn subscription_id(update: &Self::Update) -> (id: Option<SubscriptionId>)
        ensures
            match id {
                Some(key) => Self::subscription(update) == Some(key@),
                None => Self::subscription(update) is None,
            },
    ;

    /// The starting state for one instrument: a book without levels, and
    /// an updater that can take updates. It is handed out wherever an
    /// updater can be set up, and the failure to set one up otherwise.
    fn init(instrument: Instrument, now: i64) -> (result: Result<InstrumentOrderBook<Self>, DataError>)
        ensures
            result is Ok <==> Self::can_start(&instrument, now),
            result matches Err(error) ==> Self::start_failure(&instrument, now, &error),
            result matches Ok(state) ==> {
                &&& state.instrument == instrument
                &&& state.updater.started()
                &&& state.updater.ready()
                &&& state.book.wf()
                &&& state.book.last_update_time == now
                &&& state.book.bids.levels@ == Seq::<Level>::empty()
                &&& state.book.asks.levels@ == Seq::<Level>::empty()
            },
    ;

    /// Applies one message to the book. `now` is the local time in
    /// milliseconds since the Unix epoch.
    fn update(&mut self, book: &mut OrderBook, update: Self::Update, now: i64) -> (result: Result<
        Option<OrderBook>,
        DataError,
    >)
        requires
            old(book).wf(),
            old(self).ready(),
        ensures
            final(book).wf(),
            Self::updated(old(self), old(book), &update, now, final(self), final(book), &result),
    ;
}

/// What the outcome of one update is turned into for the consumer: a copy
/// of the book becomes one event, a repeat becomes nothing, and a failure
/// is passed on.
pub open spec fn published(
    result: &Result<Option<OrderBook>, DataError>,
    events: Seq<Result<MarketEvent<OrderBook>, DataError>>,
    exchange: ExchangeId,
    instrument: &Instrument,
    now: i64,
) -> bool {
    match *result {
        Ok(Some(book)) => {
            &&& events.len() == 1
            &&& events[0] matches Ok(event) && event.stamped(
                book.last_update_time,
                now,
                exchange,
                instrument,
            ) && event.kind == book
        },
        Ok(None) => events.len() == 0,
        Err(error) => events.len() == 1 && events[0] == Err::<MarketEvent<OrderBook>, DataError>(
            error,
        ),
    }
}

/// What the outcome of one update is turned into for the consumer.
pub fn publish(
    result: Result<Option<OrderBook>, DataError>,
    exchange: ExchangeId,
    instrument: &Instrument,
    now: i64,
) -> (events: Vec<Result<MarketEvent<OrderBook>, DataError>>)
    ensures
        published(&result, events@, exchange, instrument, now),
{
    match result {
        Ok(Some(book)) => {
            let event = MarketEvent {
                exchange_time: book.last_update_time,
                received_time: now,
                exchange,
                instrument: instrument.snapshot(),
                kind: book,
            };
            vec![Ok(event)]
        },
        Ok(None) => Vec::new(),
        Err(error) => vec![Err(error)],
    }
}

/// The books of one venue's subscriptions, each under the key of its
/// subscription and with its own updater.
#[derive(Debug)]
pub struct MultiBookTransformer<Updater> {
    pub exchange: ExchangeId,
    pub book_map: SubscriptionMap<InstrumentOrderBook<Updater>>,
}

impl<Updater: OrderBookUpdater> MultiBookTransformer<Updater> {
    /// No key occurs twice, and every book is well formed.
    pub open spec fn wf(&self) -> bool {
        &&& self.book_map.wf()
        &&& forall|i: int|
            0 <= i < self.book_map.entries@.len() ==> (#[trigger] self.book_map.entries@[i]).1.book.wf()
    }

    /// Whether every updater can count one more update.
    pub open spec fn ready(&self) -> bool {
        forall|i: int|
            0 <= i < self.book_map.entries@.len() ==> (
            #[trigger] self.book_map.entries@[i]).1.updater.ready()
    }

    /// A transformer for `exchange` without books.
    pub fn new(exchange: ExchangeId) -> (transformer: Self)
        ensures
            transformer.wf(),
            transformer.ready(),
            transformer.exchange == exchange,
            transformer.book_map.entries@.len() == 0,
    {
        MultiBookTransformer { exchange, book_map: SubscriptionMap::new() }
    }

    /// Whether the transformer is well formed.
    pub fn is_wf(&self) -> (wf: bool)
        ensures
            wf == self.wf(),
    {
        if !self.book_map.is_wf() {
            return false;
        }
        let mut i: usize = 0;
        while i < self.book_map.entries.len()
            invariant
                i <= self.book_map.entries.len(),
                forall|k: int| 0 <= k < i ==> (#[trigger] self.book_map.entries@[k]).1.book.wf(),
            decreases self.book_map.entries.len() - i,
        {
            if !self.book_map.entries[i].1.book.is_wf() {
                return false;
            }
            i += 1;
        }
        true
    }

    /// Whether every updater can count one more update.
    pub fn is_ready(&self) -> (ready: bool)
        ensures
            ready == self.ready(),
    {
        let mut i: usize = 0;
        while i < self.book_map.entries.len()
            invariant
                i <= self.book_map.entries.len(),
                forall|k: int| 0 <= k < i ==> (#[trigger] self.book_map.entries@[k]).1.updater.ready(),
            decreases self.book_map.entries.len() - i,
        {
            if !self.book_map.entries[i].1.updater.is_ready() {
                return false;
            }
            i += 1;
        }
        true
    }

    /// Starts a book for `instrument` under `key`, in place of the one
    /// kept under that key if there is one. It succeeds wherever the
    /// updater can be set up. Where it cannot, nothing changes and the
    /// failure to set it up is handed on.
    pub fn subscribe(&mut self, key: SubscriptionId, instrument: Instrument, now: i64) -> (result:
        Result<(), DataError>)
        requires
            old(self).wf(),
        ensures
            final(self).wf(),
            final(self).exchange == old(self).exchange,
            result is Ok <==> Updater::can_start(&instrument, now),
            result matches Err(error) ==> Updater::start_failure(&instrument, now, &error)
                && *final(self) == *old(self),
            result is Ok ==> {
                let started = final(self).book_map.value(key@);
                &&& final(self).book_map.has(key@)
                &&& started.instrument == instrument
                &&& started.updater.started()
                &&& started.updater.ready()
                &&& started.book.bids.levels@.len() == 0
                &&& started.book.asks.levels@.len() == 0
                &&& started.book.last_update_time == now
                &&& forall|other: Seq<char>|
                    other != key@ ==> (#[trigger] final(self).book_map.has(other) <==> old(self).book_map.has(other))
                &&& forall|other: Seq<char>|
                    other != key@ && old(self).book_map.has(other) ==> #[trigger] final(self).book_map.value(other) == old(self).book_map.value(other)
                &&& old(self).ready() ==> final(self).ready()
            },
    {
        let state = match Updater::init(instrument, now) {
            Ok(state) => state,
            Err(error) => {
                return Err(error);
            },
        };
        self.book_map.insert(key, state);
        Ok(())
    }

    /// What `transform` does with a message that belongs to the book at
    /// `at`: that book's updater applies it, what comes of it is published
    /// for that book's instrument, and every other book stays as it was.
    pub open spec fn applied(
        pre: &Self,
        at: int,
        update: &Updater::Update,
        now: i64,
        post: &Self,
        events: Seq<Result<MarketEvent<OrderBook>, DataError>>,
    ) -> bool {
        let before = pre.book_map.entries@;
        let after = post.book_map.entries@;
        &&& forall|j: int| 0 <= j < before.len() && j != at ==> #[trigger] after[j] == before[j]
        &&& after[at].0 == before[at].0
        &&& after[at].1.instrument == before[at].1.instrument
        &&& exists|result: Result<Option<OrderBook>, DataError>|
            {
                &&& #[trigger] Updater::updated(
                    &before[at].1.updater,
                    &before[at].1.book,
                    update,
                    now,
                    &after[at].1.updater,
                    &after[at].1.book,
                    &result,
                )
                &&& published(&result, events, pre.exchange, &before[at].1.instrument, now)
            }
    }

    /// Turns one message into events. A message that names no subscription
    /// gives nothing. One that belongs to no book kept here gives the one
    /// failure that says so, and is dropped. Any other is applied to its
    /// book, as `applied` says. `now` is the local time in milliseconds
    /// since the Unix epoch.
    pub fn transform(&mut self, update: Updater::Update, now: i64) -> (events: Vec<
        Result<MarketEvent<OrderBook>, DataError>,
    >)
        requires
            old(self).wf(),
            old(self).ready(),
        ensures
            final(self).wf(),
            final(self).exchange == old(self).exchange,
            final(self).book_map.entries@.len() == old(self).book_map.entries@.len(),
            match Updater::subscription(&update) {
                None => events@.len() == 0 && *final(self) == *old(self),
                Some(key) => if old(self).book_map.has(key) {
                    Self::applied(
                        old(self),
                        old(self).book_map.place(key),
                        &update,
                        now,
                        final(self),
                        events@,
                    )
                } else {
                    &&& events@.len() == 1
                    &&& events@[0] matches Err(DataError::Socket(SocketError::Unidentifiable(id)))
                        && id@ == key
                    &&& *final(self) == *old(self)
                },
            },
    {
        let id = match Updater::subscription_id(&update) {
            Some(id) => id,
            None => {
                return Vec::new();
            },
        };
        let at = match self.book_map.find(&id) {
            Some(at) => at,
            None => {
                return vec![Err(DataError::Socket(SocketError::Unidentifiable(id)))];
            },
        };
        let exchange = self.exchange;
        let ghost before = self.book_map.entries@;
        let entry = &mut self.book_map.entries[at];
        let result = entry.1.updater.update(&mut entry.1.book, update, now);
        let ghost outcome = result;
        let events = publish(result, exchange, &entry.1.instrument, now);
        proof {
            let after = self.book_map.entries@;
            assert(after.len() == before.len());
            assert forall|j: int| 0 <= j < before.len() && j != at implies #[trigger] after[j]
                == before[j] by {}
            assert(after[at as int].0 == before[at as int].0);
            assert(after[at as int].1.instrument == before[at as int].1.instrument);
            assert(Updater::updated(
                &before[at as int].1.updater,
                &before[at as int].1.book,
                &update,
                now,
                &after[at as int].1.updater,
                &after[at as int].1.book,
                &outcome,
            ));
            assert(published(&outcome, events@, exchange, &before[at as int].1.instrument, now));
            assert(Self::applied(old(self), at as int, &update, now, self, events@));
            assert(self.wf()) by {
                assert forall|i: int| 0 <= i < after.len() implies (#[trigger] after[i]).1.book.wf() by {
                    if i != at {
                        assert(after[i] == before[i]);
                    }
                }
                assert forall|i: int, j: int| 0 <= i < j < after.len() implies (#[trigger] after[i]).0@
                    != (#[trigger] after[j]).0@ by {
                    assert(after[i].0 == before[i].0);
                    assert(after[j].0 == before[j].0);
                    assert(before[i].0@ != before[j].0@);
                }
            }
        }
        events
    }
}

/// A message that stands for events of kind `T` by itself, with nothing to
/// remember from one message to the next.
pub trait Normalise<T>: Sized {
    /// The key of the subscription that the message belongs to, if it names
    /// one.
    spec fn subscription(&self) -> Option<Seq<char>>;

    /// Whether `events` are what the message stands for, as seen on
    /// `exchange` for `instrument` and received at `now`.
    spec fn normalised(
        &self,
        exchange: ExchangeId,
        instrument: &Instrument,
        now: i64,
        events: Seq<Result<MarketEvent<T>, DataError>>,
    ) -> bool;

    /// The key of the subscription that the message belongs to, if it names
    /// one.
    fn subscription_id(&self) -> (id: Option<SubscriptionId>)
        ensures
            match id {
                Some(key) => self.subscription() == Some(key@),
                None => self.subscription() is None,
            },
    ;

    /// The events that the message stands for, in the order of the
    /// message. `now` is the local time in milliseconds since the Unix
    /// epoch.
    fn normalise(self, exchange: ExchangeId, instrument: Instrument, now: i64) -> (events: MarketIter<T>)
        ensures
            self.normalised(exchange, &instrument, now, events.0@),
    ;
}

/// The instruments of one venue's subscriptions, each under the key of its
/// subscription: all that is needed to turn messages into events one by
/// one.
#[derive(Debug)]
pub struct StatelessTransformer {
    pub exchange: ExchangeId,
    pub instrument_map: SubscriptionMap<Instrument>,
}

impl StatelessTransformer {
    /// No key occurs twice.
    pub open spec fn wf(&self) -> bool {
        self.instrument_map.wf()
    }

    /// A transformer for `exchange` without instruments.
    pub fn new(exchange: ExchangeId) -> (transformer: Self)
        ensures
            transformer.wf(),
            transformer.exchange == exchange,
            transformer.instrument_map.entries@.len() == 0,
    {
        StatelessTransformer { exchange, instrument_map: SubscriptionMap::new() }
    }

    /// Keeps `instrument` under `key`, in place of the one kept under that
    /// key if there is one.
    pub fn subscribe(&mut self, key: SubscriptionId, instrument: Instrument)
        requires
            old(self).wf(),
        ensures
            final(self).wf(),
            final(self).exchange == old(self).exchange,
            final(self).instrument_map.has(key@),
            final(self).instrument_map.value(key@) == instrument,
            forall|other: Seq<char>|
                other != key@ ==> (#[trigger] final(self).instrument_map.has(other) <==> old(self).instrument_map.has(other)),
            forall|other: Seq<char>|
                other != key@ && old(self).instrument_map.has(other) ==> #[trigger] final(self).instrument_map.value(other) == old(self).instrument_map.value(other),
    {
        self.instrument_map.insert(key, instrument);
    }

    /// Turns one message into events. A message that names no subscription
    /// gives nothing. One that belongs to no instrument kept here gives the
    /// one failure that says so, and is dropped. Any other gives the events
    /// it stands for, for the instrument of its subscription. `now` is the
    /// local time in milliseconds since the Unix epoch.
    pub fn transform<T, Input: Normalise<T>>(&self, input: Input, now: i64) -> (events: Vec<
        Result<MarketEvent<T>, DataError>,
    >)
        requires
            self.wf(),
        ensures
            match input.subscription() {
                None => events@.len() == 0,
                Some(key) => if self.instrument_map.has(key) {
                    exists|instrument: Instrument|
                        instrument.same_as(&self.instrument_map.value(key))
                            && #[trigger] input.normalised(self.exchange, &instrument, now, events@)
                } else {
                    &&& events@.len() == 1
                    &&& events@[0] matches Err(DataError::Socket(SocketError::Unidentifiable(id)))
                        && id@ == key
                },
            },
    {
        let id = match input.subscription_id() {
            Some(id) => id,
            None => {
                return Vec::new();
            },
        };
        match self.instrument_map.find(&id) {
            Some(at) => {
                let instrument = self.instrument_map.entries[at].1.snapshot();
                let events = input.normalise(self.exchange, instrument, now);
                events.0
            },
            None => vec![Err(DataError::Socket(SocketError::Unidentifiable(id)))],
        }
    }
}

} // verus!
