//! The name of an instrument on Aevo.

use vstd::prelude::*;
use crate::exchange::aevo::Aevo;
use crate::exchange::market::{market_name, market_text};
use crate::Identifier;
use crate::subscription::Subscription;

verus! {

/// Name of a market on Aevo, as it is sent in a subscription request.
#[derive(Clone, Debug, PartialEq, Eq, Hash)]
pub struct AevoMarket(pub String);

impl View for AevoMarket {
    type V = Seq<char>;

    open spec fn view(&self) -> Seq<char> {
        self.0@
    }
}

impl<Kind> Identifier<Option<AevoMarket>> for Subscription<Aevo, Kind> {
    /// The market of the subscription's instrument. Nothing where the
    /// instrument's expiry or strike cannot be written.
    fn id(&self) -> (market: Option<AevoMarket>)
        ensures
            match market {
                Some(market) => market_text(&self.instrument) == Some(market@),
                None => market_text(&self.instrument) is None,
            },
    {
        match market_name(&self.instrument) {
            Some(name) => Some(AevoMarket(name)),
            None => None,
        }
    }
}

impl AsRef<str> for AevoMarket {
    fn as_ref(&self) -> (name: &str)
        ensures
            name@ == self@,
    {
        self.0.as_str()
    }
}

} // verus!
