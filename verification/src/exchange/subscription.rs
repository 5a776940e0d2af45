//! A subscription in a venue's own terms, and the key that its messages
//! are routed by.

use vstd::prelude::*;
use crate::model::SubscriptionId;

verus! {

/// A subscription as the venue names it: a channel and a market.
#[derive(Clone, Debug, PartialEq, Eq)]
pub struct ExchangeSub<Channel, Market> {
    pub channel: Channel,
    pub market: Market,
}

/// The key of a subscription: channel and market with a bar between them.
pub open spec fn subscription_key(channel: Seq<char>, market: Seq<char>) -> Seq<char> {
    channel + "|"@ + market
}

/// The key of the subscription to `channel` for `market`.
pub fn subscription_id(channel: &str, market: &str) -> (id: SubscriptionId)
    ensures
        id@ == subscription_key(channel@, market@),
{
    let mut key = String::from_str(channel);
    key.append("|");
    key.append(market);
    SubscriptionId(key)
}

} // verus!
