//! The channels of Deribit that this library subscribes to.

use vstd::prelude::*;
use crate::exchange::deribit::Deribit;
use crate::Identifier;
use crate::subscription::{OrderBooksL1, OrderBooksL2, PublicTrades, Subscription};

verus! {

/// Name of a Deribit channel, with `{}` where the market goes.
#[derive(Clone, Copy, Debug, PartialEq, Eq, Hash)]
pub struct DeribitChannel(pub &'static str);

impl DeribitChannel {
    /// The channel of trades, one message per match.
    pub fn trades_raw() -> (channel: Self)
        ensures
            channel@ == "trades.{}.raw"@,
    {
        DeribitChannel("trades.{}.raw")
    }

    /// The channel of best bid and best ask.
    pub fn order_book_l1() -> (channel: Self)
        ensures
            channel@ == "quote.{}"@,
    {
        DeribitChannel("quote.{}")
    }

    /// The channel of full order books, one message per change.
    pub fn order_book_l2() -> (channel: Self)
        ensures
            channel@ == "book.{}.raw"@,
    {
        DeribitChannel("book.{}.raw")
    }
}

impl View for DeribitChannel {
    type V = Seq<char>;

    open spec fn view(&self) -> Seq<char> {
        self.0@
    }
}

impl Identifier<DeribitChannel> for Subscription<Deribit, PublicTrades> {
    fn id(&self) -> (channel: DeribitChannel)
        ensures
            DeribitChannel::view(&channel) == "trades.{}.raw"@,
    {
        DeribitChannel::trades_raw()
    }
}

impl Identifier<DeribitChannel> for Subscription<Deribit, OrderBooksL1> {
    fn id(&self) -> (channel: DeribitChannel)
        ensures
            DeribitChannel::view(&channel) == "quote.{}"@,
    {
        DeribitChannel::order_book_l1()
    }
}

impl Identifier<DeribitChannel> for Subscription<Deribit, OrderBooksL2> {
    fn id(&self) -> (channel: DeribitChannel)
        ensures
            DeribitChannel::view(&channel) == "book.{}.raw"@,
    {
        DeribitChannel::order_book_l2()
    }
}

impl AsRef<str> for DeribitChannel {
    fn as_ref(&self) -> (name: &str)
        ensures
            name@ == self@,
    {
        self.0
    }
}

} // verus!
