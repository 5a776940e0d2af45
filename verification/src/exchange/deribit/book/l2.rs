//! Full order book of one Deribit instrument, rebuilt from notifications
//! that are chained by change ids.

use vstd::prelude::*;
use crate::book::{Level, OrderBook, apply_levels, lemma_apply_levels_concat};
use crate::error::DataError;
use crate::exchange::deribit::book::DeribitLevel;
use crate::exchange::deribit::channel::DeribitChannel;
use crate::exchange::deribit::message::DeribitSingleDataMessage;
use crate::exchange::subscription::{subscription_id, subscription_key};
use crate::Identifier;
use crate::model::{Instrument, SubscriptionId};
use crate::transformer::{InstrumentOrderBook, OrderBookUpdater};

verus! {

/// A book notification in its envelope.
pub type DeribitOrderBookL2 = DeribitSingleDataMessage<DeribitOrderBookL2Delta>;

/// A book notification: the first one of a subscription holds the whole
/// book, each later one the prices that changed since `prev_change_id`.
#[derive(Clone, Debug, PartialEq, Eq)]
pub struct DeribitOrderBookL2Delta {
    pub instrument_name: String,
    pub change_id: u64,
    pub prev_change_id: Option<u64>,
    pub bids: Vec<DeribitLevel>,
    pub asks: Vec<DeribitLevel>,
}

impl Identifier<Option<SubscriptionId>> for DeribitOrderBookL2 {
    /// The subscription that the notification belongs to: that of the
    /// order book channel for the instrument it names.
    fn id(&self) -> (id: Option<SubscriptionId>)
        ensures
            id matches Some(key) && SubscriptionId::view(&key) == subscription_key(
                "book.{}.raw"@,
                self.params.data.instrument_name@,
            ),
    {
        Some(
            subscription_id(
                DeribitChannel::order_book_l2().as_ref(),
                self.params.data.instrument_name.as_str(),
            ),
        )
    }
}

/// What is known of the chain of notifications applied so far.
#[derive(Clone, Copy, Debug, PartialEq, Eq, Hash, Structural)]
pub struct DeribitBookUpdater {
    pub updates_processed: u64,
    pub change_id: u64,
    pub prev_change_id: u64,
}

impl DeribitBookUpdater {
    /// An updater that has applied nothing, holding `change_id` as that of
    /// the last notification.
    pub fn new(change_id: u64) -> (updater: Self)
        ensures
            updater.updates_processed == 0,
            updater.prev_change_id == change_id,
            updater.change_id == change_id,
    {
        Self { updates_processed: 0, prev_change_id: change_id, change_id }
    }

    /// Whether a notification follows on the last one applied: it names no
    /// predecessor, or it names the change id held here.
    pub open spec fn follows(self, delta: &DeribitOrderBookL2Delta) -> bool {
        match delta.prev_change_id {
            Some(prev_change_id) => prev_change_id == self.change_id,
            None => true,
        }
    }

    /// The state after a notification was applied.
    pub open spec fn advanced(self, delta: &DeribitOrderBookL2Delta) -> Self {
        DeribitBookUpdater {
            updates_processed: (self.updates_processed + 1) as u64,
            prev_change_id: self.change_id,
            change_id: delta.change_id,
        }
    }
}

impl OrderBookUpdater for DeribitBookUpdater {
    type Update = DeribitOrderBookL2;

    /// Nothing was applied yet, and the change id held is zero.
    open spec fn started(&self) -> bool {
        *self == (DeribitBookUpdater { updates_processed: 0, change_id: 0, prev_change_id: 0 })
    }

    /// The count of updates has not reached its end.
    open spec fn ready(&self) -> bool {
        self.updates_processed < u64::MAX
    }

    /// An updater can always be set up: the venue's first notification holds
    /// the whole book, so nothing has to be fetched.
    open spec fn can_start(instrument: &Instrument, now: i64) -> bool {
        true
    }

    /// Setting up an updater never fails.
    open spec fn start_failure(instrument: &Instrument, now: i64, error: &DataError) -> bool {
        false
    }

    /// Every notification belongs to the order book channel of the
    /// instrument it names.
    open spec fn subscription(update: &DeribitOrderBookL2) -> Option<Seq<char>> {
        Some(subscription_key("book.{}.raw"@, update.params.data.instrument_name@))
    }

    /// A notification that does not follow on the last one is refused with
    /// the change id held here and the one received, and book and updater
    /// stay as they were. One that follows has its levels applied to both
    /// sides, moves the updater on, stamps the book with `now`, and hands
    /// out a copy of the book.
    open spec fn updated(
        pre: &Self,
        pre_book: &OrderBook,
        update: &DeribitOrderBookL2,
        now: i64,
        post: &Self,
        post_book: &OrderBook,
        result: &Result<Option<OrderBook>, DataError>,
    ) -> bool {
        if pre.follows(&update.params.data) {
            &&& *post == pre.advanced(&update.params.data)
            &&& post_book.last_update_time == now
            &&& post_book.bids@ == apply_levels(
                pre_book.bids@,
                DeribitLevel::levels(update.params.data.bids@),
            )
            &&& post_book.asks@ == apply_levels(
                pre_book.asks@,
                DeribitLevel::levels(update.params.data.asks@),
            )
            &&& *result matches Ok(Some(snapshot)) && snapshot.same_as(post_book)
        } else {
            &&& *result == Err::<Option<OrderBook>, DataError>(
                DataError::InvalidSequence {
                    expected: pre.change_id,
                    received: update.params.data.change_id,
                },
            )
            &&& *post == *pre
            &&& *post_book == *pre_book
        }
    }

    fn is_ready(&self) -> (ready: bool) {
        self.updates_processed < u64::MAX
    }

    fn subscription_id(update: &DeribitOrderBookL2) -> (id: Option<SubscriptionId>) {
        update.id()
    }

    /// No snapshot has to be fetched, since the venue's first notification
    /// holds the whole book: the updater starts at zero.
    fn init(instrument: Instrument, now: i64) -> (result: Result<InstrumentOrderBook<Self>, DataError>) {
        Ok(InstrumentOrderBook { instrument, updater: Self::new(0), book: OrderBook::empty(now) })
    }

    fn update(&mut self, book: &mut OrderBook, update: DeribitOrderBookL2, now: i64) -> (result:
        Result<Option<OrderBook>, DataError>) {
        match update.params.data.prev_change_id {
            Some(prev_change_id) => {
                if prev_change_id != self.change_id {
                    return Err(
                        DataError::InvalidSequence {
                            expected: self.change_id,
                            received: update.params.data.change_id,
                        },
                    );
                }
            },
            None => {},
        }
        book.last_update_time = now;
        book.bids.upsert(DeribitLevel::to_levels(&update.params.data.bids));
        book.asks.upsert(DeribitLevel::to_levels(&update.params.data.asks));

        self.updates_processed += 1;
        self.prev_change_id = self.change_id;
        self.change_id = update.params.data.change_id;

        Ok(Some(book.snapshot()))
    }
}

/// Whether each notification of `deltas`, taken in order from `updater`,
/// follows on the one before it.
pub open spec fn chained(updater: DeribitBookUpdater, deltas: Seq<DeribitOrderBookL2Delta>) -> bool
    decreases deltas.len(),
{
    if deltas.len() == 0 {
        true
    } else {
        &&& chained(updater, deltas.drop_last())
        &&& replayed(updater, deltas.drop_last()).follows(&deltas.last())
    }
}

/// The updater after `deltas` were applied in order.
pub open spec fn replayed(
    updater: DeribitBookUpdater,
    deltas: Seq<DeribitOrderBookL2Delta>,
) -> DeribitBookUpdater
    decreases deltas.len(),
{
    if deltas.len() == 0 {
        updater
    } else {
        replayed(updater, deltas.drop_last()).advanced(&deltas.last())
    }
}

/// The bid side after the bids of each notification were applied in turn.
pub open spec fn replayed_bids(bids: Map<u64, u64>, deltas: Seq<DeribitOrderBookL2Delta>) -> Map<
    u64,
    u64,
>
    decreases deltas.len(),
{
    if deltas.len() == 0 {
        bids
    } else {
        apply_levels(
            replayed_bids(bids, deltas.drop_last()),
            DeribitLevel::levels(deltas.last().bids@),
        )
    }
}

/// The ask side after the asks of each notification were applied in turn.
pub open spec fn replayed_asks(asks: Map<u64, u64>, deltas: Seq<DeribitOrderBookL2Delta>) -> Map<
    u64,
    u64,
>
    decreases deltas.len(),
{
    if deltas.len() == 0 {
        asks
    } else {
        apply_levels(
            replayed_asks(asks, deltas.drop_last()),
            DeribitLevel::levels(deltas.last().asks@),
        )
    }
}

/// The bids of all the notifications as one batch, in order.
pub open spec fn cumulative_bids(deltas: Seq<DeribitOrderBookL2Delta>) -> Seq<Level>
    decreases deltas.len(),
{
    if deltas.len() == 0 {
        Seq::empty()
    } else {
        cumulative_bids(deltas.drop_last()) + DeribitLevel::levels(deltas.last().bids@)
    }
}

/// The asks of all the notifications as one batch, in order.
pub open spec fn cumulative_asks(deltas: Seq<DeribitOrderBookL2Delta>) -> Seq<Level>
    decreases deltas.len(),
{
    if deltas.len() == 0 {
        Seq::empty()
    } else {
        cumulative_asks(deltas.drop_last()) + DeribitLevel::levels(deltas.last().asks@)
    }
}

/// A chain of notifications, applied one by one, leaves the book that a
/// single notification with all their changes in order would leave, and
/// the updater at the change id of the last of them.
pub proof fn lemma_replay_is_cumulative(
    updater: DeribitBookUpdater,
    bids: Map<u64, u64>,
    asks: Map<u64, u64>,
    deltas: Seq<DeribitOrderBookL2Delta>,
)
    requires
        chained(updater, deltas),
    ensures
        replayed_bids(bids, deltas) == apply_levels(bids, cumulative_bids(deltas)),
        replayed_asks(asks, deltas) == apply_levels(asks, cumulative_asks(deltas)),
        deltas.len() > 0 ==> replayed(updater, deltas).change_id == deltas.last().change_id,
    decreases deltas.len(),
{
    if deltas.len() > 0 {
        let earlier = deltas.drop_last();
        lemma_replay_is_cumulative(updater, bids, asks, earlier);
        lemma_apply_levels_concat(
            bids,
            cumulative_bids(earlier),
            DeribitLevel::levels(deltas.last().bids@),
        );
        lemma_apply_levels_concat(
            asks,
            cumulative_asks(earlier),
            DeribitLevel::levels(deltas.last().asks@),
        );
    }
}

} // verus!
