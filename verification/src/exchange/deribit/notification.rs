//! Envelope of a Deribit notification that is routed by its channel: the
//! channel is read as the key of a subscription.

use vstd::prelude::*;
use vstd::string::StrSliceExecFns;
use crate::exchange::deribit::channel::DeribitChannel;
use crate::exchange::subscription::{subscription_id, subscription_key};
use crate::Identifier;
use crate::model::SubscriptionId;

verus! {

/// A notification that carries one payload.
#[derive(Clone, Debug, PartialEq, Eq)]
pub struct DeribitMessageSingle<T> {
    pub jsonrpc: String,
    pub method: SubscriptionMethod,
    pub params: SingleData<T>,
}

impl<T> Identifier<Option<SubscriptionId>> for DeribitMessageSingle<T> {
    fn id(&self) -> (id: Option<SubscriptionId>)
        ensures
            id matches Some(key) && SubscriptionId::view(&key) == self.params.subscription_id@,
    {
        Some(SubscriptionId(self.params.subscription_id.0.clone()))
    }
}

/// A notification that carries a batch of payloads.
#[derive(Clone, Debug, PartialEq, Eq)]
pub struct DeribitMessageMultiple<T> {
    pub jsonrpc: String,
    pub method: SubscriptionMethod,
    pub params: MultipleData<T>,
}

impl<T> Identifier<Option<SubscriptionId>> for DeribitMessageMultiple<T> {
    fn id(&self) -> (id: Option<SubscriptionId>)
        ensures
            id matches Some(key) && SubscriptionId::view(&key) == self.params.subscription_id@,
    {
        Some(SubscriptionId(self.params.subscription_id.0.clone()))
    }
}

/// What a notification is: data of a subscription, or a keep-alive.
#[derive(Clone, Copy, Debug, PartialEq, Eq, Hash, Structural)]
pub enum SubscriptionMethod {
    Subscription,
    Heartbeat,
}

impl SubscriptionMethod {
    /// Whether the notification carries data of a subscription.
    pub fn is_subscription(self) -> (r: bool)
        ensures
            r == (self == SubscriptionMethod::Subscription),
    {
        match self {
            SubscriptionMethod::Subscription => true,
            SubscriptionMethod::Heartbeat => false,
        }
    }

    /// Whether the notification is a keep-alive.
    pub fn is_heartbeat(self) -> (r: bool)
        ensures
            r == (self == SubscriptionMethod::Heartbeat),
    {
        match self {
            SubscriptionMethod::Subscription => false,
            SubscriptionMethod::Heartbeat => true,
        }
    }
}

/// A batch of payloads and the subscription they belong to.
#[derive(Clone, Debug, PartialEq, Eq)]
pub struct MultipleData<T> {
    pub data: Vec<T>,
    pub subscription_id: SubscriptionId,
}

/// One payload and the subscription it belongs to.
#[derive(Clone, Debug, PartialEq, Eq)]
pub struct SingleData<T> {
    pub data: T,
    pub subscription_id: SubscriptionId,
}

/// How many characters stand before the first dot of `text`: all of them
/// where it has no dot.
pub open spec fn before_dot(text: Seq<char>) -> int
    decreases text.len(),
{
    if text.len() == 0 || text[0] == '.' {
        0
    } else {
        1 + before_dot(text.skip(1))
    }
}

/// The instrument that a channel names: what stands between its first dot
/// and its second, or its end. Nothing where the channel has no dot.
pub open spec fn channel_instrument(channel: Seq<char>) -> Option<Seq<char>> {
    let first = before_dot(channel);
    if first >= channel.len() {
        None
    } else {
        let rest = channel.skip(first + 1);
        Some(rest.take(before_dot(rest)))
    }
}

proof fn lemma_before_dot(text: Seq<char>, from: int)
    requires
        0 <= from <= text.len(),
    ensures
        0 <= before_dot(text.skip(from)) <= text.len() - from,
        from < text.len() && text[from] != '.' ==> before_dot(text.skip(from)) == 1 + before_dot(
            text.skip(from + 1),
        ),
        from < text.len() && text[from] == '.' ==> before_dot(text.skip(from)) == 0,
        from == text.len() ==> before_dot(text.skip(from)) == 0,
    decreases text.len() - from,
{
    if from < text.len() {
        assert(text.skip(from)[0] == text[from]);
        assert(text.skip(from).skip(1) =~= text.skip(from + 1));
        lemma_before_dot(text, from + 1);
    }
}

/// The index of the first dot of `text` at or after `from`, or the length
/// of `text` where there is none.
fn find_dot(text: &str, from: usize) -> (at: usize)
    requires
        from <= text@.len(),
    ensures
        at == from + before_dot(text@.skip(from as int)),
        from <= at <= text@.len(),
{
    let len = text.unicode_len();
    let mut at: usize = from;
    proof {
        lemma_before_dot(text@, from as int);
    }
    while at < len && text.get_char(at) != '.'
        invariant
            len == text@.len(),
            from <= at <= len,
            from + before_dot(text@.skip(from as int)) == at + before_dot(text@.skip(at as int)),
        decreases len - at,
    {
        proof {
            lemma_before_dot(text@, at as int);
            lemma_before_dot(text@, at + 1);
        }
        at += 1;
    }
    proof {
        lemma_before_dot(text@, at as int);
    }
    at
}

/// The key of the subscription that a notification on `channel` belongs
/// to: that of the quote channel for the instrument that `channel` names.
/// Nothing where the channel names no instrument.
pub fn subscription_id_of_channel(channel: &str) -> (id: Option<SubscriptionId>)
    ensures
        match channel_instrument(channel@) {
            Some(instrument) => id matches Some(key) && key@ == subscription_key(
                "quote.{}"@,
                instrument,
            ),
            None => id is None,
        },
{
    let len = channel.unicode_len();
    let first = find_dot(channel, 0);
    proof {
        assert(channel@.skip(0) =~= channel@);
    }
    if first >= len {
        None
    } else {
        let second = find_dot(channel, first + 1);
        let instrument = channel.substring_char(first + 1, second);
        proof {
            let rest = channel@.skip(first + 1);
            assert(instrument@ =~= rest.take(before_dot(rest)));
        }
        Some(subscription_id(DeribitChannel::order_book_l1().as_ref(), instrument))
    }
}

} // verus!
