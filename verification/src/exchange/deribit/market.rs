//! The name of an instrument on Deribit.

use vstd::prelude::*;
use crate::exchange::deribit::Deribit;
use crate::exchange::market::{market_name, market_text};
use crate::Identifier;
use crate::subscription::Subscription;

verus! {

/// Name of a market on Deribit, as it is sent in a subscription request.
#[derive(Clone, Debug, PartialEq, Eq, Hash)]
pub struct DeribitMarket(pub String);

impl View for DeribitMarket {
    type V = Seq<char>;

    open spec fn view(&self) -> Seq<char> {
        self.0@
    }
}

impl<Kind> Identifier<Option<DeribitMarket>> for Subscription<Deribit, Kind> {
    /// The market of the subscription's instrument. Nothing where the
    /// instrument's expiry or strike cannot be written.
    fn id(&self) -> (market: Option<DeribitMarket>)
        ensures
            match market {
                Some(market) => market_text(&self.instrument) == Some(market@),
                None => market_text(&self.instrument) is None,
            },
    {
        match market_name(&self.instrument) {
            Some(name) => Some(DeribitMarket(name)),
            None => None,
        }
    }
}

impl AsRef<str> for DeribitMarket {
    fn as_ref(&self) -> (name: &str)
        ensures
            name@ == self@,
    {
        self.0.as_str()
    }
}

} // verus!
