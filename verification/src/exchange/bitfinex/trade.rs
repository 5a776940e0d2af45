//! Public trades of Bitfinex.

use vstd::prelude::*;
use crate::book::Side;
use crate::decimal::{nat_text, push_nat};
use crate::event::{MarketEvent, MarketIter, PublicTrade};
use crate::model::{ExchangeId, Instrument};

verus! {

/// One trade: price and amount in fixed-point units, `time` in
/// milliseconds since the Unix epoch.
#[derive(Clone, Copy, Debug, PartialEq, Eq, Structural)]
pub struct BitfinexTrade {
    pub id: u64,
    pub time: i64,
    pub side: Side,
    pub price: u64,
    pub amount: u64,
}

impl BitfinexTrade {
    /// The size of a signed amount.
    pub open spec fn magnitude(amount: i64) -> u64 {
        if amount >= 0 {
            amount as u64
        } else {
            (-amount) as u64
        }
    }

    /// The trade that the venue's list `[id, time, amount, price]` stands
    /// for. The sign of the amount tells the side: an amount that is not
    /// negative is a buy. The trade holds the size of the amount.
    pub fn from_fields(id: u64, time: i64, amount: i64, price: u64) -> (trade: Self)
        ensures
            trade.id == id,
            trade.time == time,
            trade.price == price,
            trade.side == (if amount >= 0 {
                Side::Buy
            } else {
                Side::Sell
            }),
            trade.amount == Self::magnitude(amount),
    {
        let side = if amount >= 0 {
            Side::Buy
        } else {
            Side::Sell
        };
        let size: u64 = if amount >= 0 {
            amount as u64
        } else {
            ((-(amount + 1)) as u64) + 1
        };
        BitfinexTrade { id, time, side, price, amount: size }
    }

    /// Whether `event` is this trade as seen on `exchange` for
    /// `instrument`, received at `now`.
    pub open spec fn is_event(
        &self,
        event: &MarketEvent<PublicTrade>,
        exchange: ExchangeId,
        instrument: &Instrument,
        now: i64,
    ) -> bool {
        &&& event.stamped(self.time, now, exchange, instrument)
        &&& event.kind.id@ == nat_text(self.id as nat)
        &&& event.kind.price == self.price
        &&& event.kind.amount == self.amount
        &&& event.kind.side == self.side
    }
}

impl MarketIter<PublicTrade> {
    /// The one event that a trade stands for; its id is the trade's number
    /// in decimal. `now` is the local time in milliseconds since the Unix
    /// epoch.
    pub fn from_bitfinex_trade(
        exchange: ExchangeId,
        instrument: Instrument,
        trade: BitfinexTrade,
        now: i64,
    ) -> (events: Self)
        ensures
            events.0@.len() == 1,
            events.0@[0] matches Ok(event) && trade.is_event(&event, exchange, &instrument, now),
    {
        let mut id = String::new();
        push_nat(&mut id, trade.id);
        proof {
            assert(id@ =~= nat_text(trade.id as nat));
        }
        let event = MarketEvent {
            exchange_time: trade.time,
            received_time: now,
            exchange,
            instrument,
            kind: PublicTrade { id, price: trade.price, amount: trade.amount, side: trade.side },
        };
        MarketIter(vec![Ok(event)])
    }
}

} // verus!
