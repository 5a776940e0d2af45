//! The normalised event that every venue's messages are turned into.

use vstd::prelude::*;
use crate::book::{Level, Side};
use crate::error::DataError;
use crate::model::{ExchangeId, Instrument};

verus! {

/// One normalised event. `exchange_time` is the venue's time of the event
/// and `received_time` the local time at which it was normalised, both in
/// milliseconds since the Unix epoch.
#[derive(Debug)]
pub struct MarketEvent<T> {
    pub exchange_time: i64,
    pub received_time: i64,
    pub exchange: ExchangeId,
    pub instrument: Instrument,
    pub kind: T,
}

impl<T> MarketEvent<T> {
    /// Whether the event is about `instrument` on `exchange`, with these
    /// two times.
    pub open spec fn stamped(
        &self,
        exchange_time: i64,
        received_time: i64,
        exchange: ExchangeId,
        instrument: &Instrument,
    ) -> bool {
        &&& self.exchange_time == exchange_time
        &&& self.received_time == received_time
        &&& self.exchange == exchange
        &&& self.instrument.same_as(instrument)
    }
}

/// What one message was turned into: events and failures, in the order of
/// the message.
#[derive(Debug)]
pub struct MarketIter<T>(pub Vec<Result<MarketEvent<T>, DataError>>);

/// A trade, with price and amount in fixed-point units.
#[derive(Clone, Debug, PartialEq, Eq)]
pub struct PublicTrade {
    pub id: String,
    pub price: u64,
    pub amount: u64,
    pub side: Side,
}

/// The best bid and the best ask of a book.
#[derive(Clone, Copy, Debug, PartialEq, Eq, Structural)]
pub struct OrderBookL1 {
    pub last_update_time: i64,
    pub best_bid: Level,
    pub best_ask: Level,
}

} // verus!
