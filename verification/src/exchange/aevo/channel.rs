//! The channels of Aevo that this library subscribes to.

use vstd::prelude::*;
use crate::exchange::aevo::Aevo;
use crate::Identifier;
use crate::subscription::{OrderBooksL2, Subscription};

verus! {

/// Name of an Aevo channel.
#[derive(Clone, Copy, Debug, PartialEq, Eq, Hash)]
pub struct AevoChannel(pub &'static str);

impl AevoChannel {
    /// The channel of full order books.
    pub fn order_book_l2() -> (channel: Self)
        ensures
            channel@ == "orderbook"@,
    {
        AevoChannel("orderbook")
    }
}

impl View for AevoChannel {
    type V = Seq<char>;

    open spec fn view(&self) -> Seq<char> {
        self.0@
    }
}

impl Identifier<AevoChannel> for Subscription<Aevo, OrderBooksL2> {
    fn id(&self) -> (channel: AevoChannel)
        ensures
            AevoChannel::view(&channel) == "orderbook"@,
    {
        AevoChannel::order_book_l2()
    }
}

impl AsRef<str> for AevoChannel {
    fn as_ref(&self) -> (name: &str)
        ensures
            name@ == self@,
    {
        self.0
    }
}

} // verus!
