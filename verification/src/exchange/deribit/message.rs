//! Envelope of a Deribit notification, with one payload or with many.

use vstd::prelude::*;

verus! {

/// A notification that carries one payload.
#[derive(Clone, Debug, PartialEq, Eq)]
pub struct DeribitSingleDataMessage<T> {
    pub jsonrpc: String,
    pub method: SubscriptionMethod,
    pub params: SingleData<T>,
}

/// A notification that carries a batch of payloads.
#[derive(Clone, Debug, PartialEq, Eq)]
pub struct DeribitMultipleDataMessage<T> {
    pub jsonrpc: String,
    pub method: SubscriptionMethod,
    pub params: MultipleData<T>,
}

/// One payload and the channel it came on.
#[derive(Clone, Debug, PartialEq, Eq)]
pub struct SingleData<T> {
    pub data: T,
    pub channel: String,
}

/// A batch of payloads and the channel they came on.
#[derive(Clone, Debug, PartialEq, Eq)]
pub struct MultipleData<T> {
    pub data: Vec<T>,
    pub channel: String,
}

/// What a notification is: data of a subscription, or a keep-alive.
#[derive(Clone, Copy, Debug, PartialEq, Eq, Hash, Structural)]
pub enum SubscriptionMethod {
    Subscription,
    Heartbeat,
}

impl SubscriptionMethod {
    /// Whether the notification carries data of a subscription.
    pub fn is_subscription(self) -> (r: bool)
        ensures
            r == (self == SubscriptionMethod::Subscription),
    {
        match self {
            SubscriptionMethod::Subscription => true,
            SubscriptionMethod::Heartbeat => false,
        }
    }

    /// Whether the notification is a keep-alive.
    pub fn is_heartbeat(self) -> (r: bool)
        ensures
            r == (self == SubscriptionMethod::Heartbeat),
    {
        match self {
            SubscriptionMethod::Subscription => false,
            SubscriptionMethod::Heartbeat => true,
        }
    }
}

} // verus!
