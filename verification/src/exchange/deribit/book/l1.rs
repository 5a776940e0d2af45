//! Best bid and best ask of Deribit.

use vstd::prelude::*;
use crate::book::Level;
use crate::error::DataError;
use crate::event::{MarketEvent, MarketIter, OrderBookL1};
use crate::exchange::deribit::channel::DeribitChannel;
use crate::exchange::deribit::message::DeribitSingleDataMessage;
use crate::exchange::subscription::{subscription_id, subscription_key};
use crate::Identifier;
use crate::model::{ExchangeId, Instrument, SubscriptionId};
use crate::transformer::Normalise;

verus! {

/// A quote in its envelope.
pub type DeribitOrderBookL1 = DeribitSingleDataMessage<DeribitOrderBookL1Inner>;

/// A quote: prices and amounts in fixed-point units, `time` in
/// milliseconds since the Unix epoch.
#[derive(Clone, Debug, PartialEq, Eq)]
pub struct DeribitOrderBookL1Inner {
    pub instrument_name: String,
    pub best_bid_price: u64,
    pub best_bid_amount: u64,
    pub best_ask_price: u64,
    pub best_ask_amount: u64,
    pub time: i64,
}

impl DeribitOrderBookL1Inner {
    /// The quote as the top of a book.
    pub open spec fn top(&self) -> OrderBookL1 {
        OrderBookL1 {
            last_update_time: self.time,
            best_bid: Level { price: self.best_bid_price, amount: self.best_bid_amount },
            best_ask: Level { price: self.best_ask_price, amount: self.best_ask_amount },
        }
    }
}

impl Identifier<Option<SubscriptionId>> for DeribitOrderBookL1 {
    /// The subscription that the quote belongs to: that of the quote
    /// channel for the instrument it names.
    fn id(&self) -> (id: Option<SubscriptionId>)
        ensures
            id matches Some(key) && SubscriptionId::view(&key) == subscription_key(
                "quote.{}"@,
                self.params.data.instrument_name@,
            ),
    {
        Some(
            subscription_id(
                DeribitChannel::order_book_l1().as_ref(),
                self.params.data.instrument_name.as_str(),
            ),
        )
    }
}

impl MarketIter<OrderBookL1> {
    /// The one event that a quote stands for. `now` is the local time in
    /// milliseconds since the Unix epoch.
    pub fn from_deribit_quote(
        exchange: ExchangeId,
        instrument: Instrument,
        quote: DeribitOrderBookL1,
        now: i64,
    ) -> (events: Self)
        ensures
            events.0@.len() == 1,
            events.0@[0] matches Ok(event) && event.stamped(
                quote.params.data.time,
                now,
                exchange,
                &instrument,
            ) && event.kind == quote.params.data.top(),
    {
        let data = &quote.params.data;
        let event = MarketEvent {
            exchange_time: data.time,
            received_time: now,
            exchange,
            instrument,
            kind: OrderBookL1 {
                last_update_time: data.time,
                best_bid: Level::new(data.best_bid_price, data.best_bid_amount),
                best_ask: Level::new(data.best_ask_price, data.best_ask_amount),
            },
        };
        MarketIter(vec![Ok(event)])
    }
}

impl Normalise<OrderBookL1> for DeribitOrderBookL1 {
    /// A quote belongs to the quote channel of the instrument it names.
    open spec fn subscription(&self) -> Option<Seq<char>> {
        Some(subscription_key("quote.{}"@, self.params.data.instrument_name@))
    }

    /// The one event that holds the quote as the top of a book.
    open spec fn normalised(
        &self,
        exchange: ExchangeId,
        instrument: &Instrument,
        now: i64,
        events: Seq<Result<MarketEvent<OrderBookL1>, DataError>>,
    ) -> bool {
        &&& events.len() == 1
        &&& events[0] matches Ok(event) && event.stamped(
            self.params.data.time,
            now,
            exchange,
            instrument,
        ) && event.kind == self.params.data.top()
    }

    fn subscription_id(&self) -> (id: Option<SubscriptionId>) {
        self.id()
    }

    fn normalise(self, exchange: ExchangeId, instrument: Instrument, now: i64) -> (events: MarketIter<
        OrderBookL1,
    >) {
        MarketIter::from_deribit_quote(exchange, instrument, self, now)
    }
}

} // verus!
