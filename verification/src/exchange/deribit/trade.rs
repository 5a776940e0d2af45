//! Public trades of Deribit.

use vstd::prelude::*;
use crate::book::Side;
use crate::error::DataError;
use crate::event::{MarketEvent, MarketIter, PublicTrade};
use crate::exchange::deribit::channel::DeribitChannel;
use crate::exchange::deribit::message::DeribitMultipleDataMessage;
use crate::exchange::subscription::{subscription_id, subscription_key};
use crate::Identifier;
use crate::model::{ExchangeId, Instrument, SubscriptionId};
use crate::transformer::Normalise;

verus! {

/// A batch of trades in its envelope.
pub type DeribitTrades = DeribitMultipleDataMessage<DeribitTrade>;

/// One trade: price and amount in fixed-point units, `time` in
/// milliseconds since the Unix epoch.
#[derive(Clone, Debug, PartialEq, Eq)]
pub struct DeribitTrade {
    pub id: String,
    pub price: u64,
    pub amount: u64,
    pub side: Side,
    pub instrument_name: String,
    pub time: i64,
}

impl DeribitTrade {
    /// Whether `event` is this trade as seen on `exchange` for
    /// `instrument`, received at `now`.
    pub open spec fn is_event(
        &self,
        event: &MarketEvent<PublicTrade>,
        exchange: ExchangeId,
        instrument: &Instrument,
        now: i64,
    ) -> bool {
        &&& event.stamped(self.time, now, exchange, instrument)
        &&& event.kind.id@ == self.id@
        &&& event.kind.price == self.price
        &&& event.kind.amount == self.amount
        &&& event.kind.side == self.side
    }
}

impl Identifier<Option<SubscriptionId>> for DeribitTrades {
    /// The subscription that the batch belongs to: that of the trades
    /// channel for the instrument of its first trade. A batch without trades
    /// belongs to none.
    fn id(&self) -> (id: Option<SubscriptionId>)
        ensures
            self.params.data@.len() == 0 ==> id is None,
            self.params.data@.len() > 0 ==> (id matches Some(key) && SubscriptionId::view(&key)
                == subscription_key("trades.{}.raw"@, self.params.data@[0].instrument_name@)),
    {
        if self.params.data.len() == 0 {
            None
        } else {
            Some(
                subscription_id(
                    DeribitChannel::trades_raw().as_ref(),
                    self.params.data[0].instrument_name.as_str(),
                ),
            )
        }
    }
}

impl MarketIter<PublicTrade> {
    /// One event per trade of the batch, in the order of the batch. `now`
    /// is the local time in milliseconds since the Unix epoch.
    pub fn from_deribit_trades(
        exchange: ExchangeId,
        instrument: Instrument,
        trades: DeribitTrades,
        now: i64,
    ) -> (events: Self)
        ensures
            events.0@.len() == trades.params.data@.len(),
            forall|i: int|
                0 <= i < events.0@.len() ==> (#[trigger] events.0@[i] matches Ok(event)
                    && trades.params.data@[i].is_event(&event, exchange, &instrument, now)),
    {
        let mut events: Vec<Result<MarketEvent<PublicTrade>, DataError>> = Vec::new();
        let mut n: usize = 0;
        while n < trades.params.data.len()
            invariant
                n <= trades.params.data.len(),
                events@.len() == n,
                forall|i: int|
                    0 <= i < n ==> (#[trigger] events@[i] matches Ok(event)
                        && trades.params.data@[i].is_event(&event, exchange, &instrument, now)),
            decreases trades.params.data.len() - n,
        {
            let trade = &trades.params.data[n];
            events.push(
                Ok(
                    MarketEvent {
                        exchange_time: trade.time,
                        received_time: now,
                        exchange,
                        instrument: instrument.snapshot(),
                        kind: PublicTrade {
                            id: trade.id.clone(),
                            price: trade.price,
                            amount: trade.amount,
                            side: trade.side,
                        },
                    },
                ),
            );
            n += 1;
        }
        MarketIter(events)
    }
}

impl Normalise<PublicTrade> for DeribitTrades {
    /// A batch belongs to the trades channel of the instrument of its
    /// first trade; a batch without trades belongs to none.
    open spec fn subscription(&self) -> Option<Seq<char>> {
        if self.params.data@.len() == 0 {
            None
        } else {
            Some(subscription_key("trades.{}.raw"@, self.params.data@[0].instrument_name@))
        }
    }

    /// One event per trade, in the order of the batch.
    open spec fn normalised(
        &self,
        exchange: ExchangeId,
        instrument: &Instrument,
        now: i64,
        events: Seq<Result<MarketEvent<PublicTrade>, DataError>>,
    ) -> bool {
        &&& events.len() == self.params.data@.len()
        &&& forall|i: int|
            0 <= i < events.len() ==> (#[trigger] events[i] matches Ok(event)
                && self.params.data@[i].is_event(&event, exchange, instrument, now))
    }

    fn subscription_id(&self) -> (id: Option<SubscriptionId>) {
        self.id()
    }

    fn normalise(self, exchange: ExchangeId, instrument: Instrument, now: i64) -> (events: MarketIter<
        PublicTrade,
    >) {
        MarketIter::from_deribit_trades(exchange, instrument, self, now)
    }
}

} // verus!
