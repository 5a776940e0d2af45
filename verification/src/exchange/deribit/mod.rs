//! Adapter for Deribit: JSON-RPC framing, and books chained by change ids.

use vstd::prelude::*;
use crate::error::SocketError;
use crate::exchange::{Connector, PingInterval, endpoint_of};
use crate::exchange::deribit::channel::DeribitChannel;
use crate::exchange::deribit::market::DeribitMarket;
use crate::exchange::request::{
    fill_template, filled, json_array, json_string_array, lemma_replaced_once, texts,
};
use crate::exchange::subscription::ExchangeSub;
use crate::model::ExchangeId;

pub mod book;
pub mod channel;
pub mod market;
pub mod message;
pub mod notification;
pub mod subscription;
pub mod trade;

verus! {

/// The endpoint of Deribit.
pub const BASE_URL_DERIBIT: &'static str = "wss://streams.deribit.com/ws/api/v2";

/// Seconds between two heartbeats of Deribit.
pub const PING_INTERVAL_DERIBIT: u64 = 29;

/// The venue Deribit.
#[derive(Clone, Copy, Debug, Default, PartialEq, Eq, Hash, Structural)]
pub struct Deribit;

/// The name of the stream of one subscription: the channel with the market
/// filled in.
pub open spec fn stream_name(sub: ExchangeSub<DeribitChannel, DeribitMarket>) -> Seq<char> {
    filled(sub.channel@, sub.market@)
}

/// The names of the streams of `subs`, in order.
pub open spec fn stream_names(subs: Seq<ExchangeSub<DeribitChannel, DeribitMarket>>) -> Seq<
    Seq<char>,
> {
    subs.map_values(|sub: ExchangeSub<DeribitChannel, DeribitMarket>| stream_name(sub))
}

/// The frame that subscribes to the streams `names`.
pub open spec fn subscribe_frame(names: Seq<Seq<char>>) -> Seq<char> {
    "{\"jsonrpc\":\"2.0\",\"method\":\"public/subscribe\",\"params\":{\"channels\":"@
        + json_array(names) + "}}"@
}

impl Connector for Deribit {
    type Channel = DeribitChannel;

    type Market = DeribitMarket;

    open spec fn venue() -> ExchangeId {
        ExchangeId::Deribit
    }

    open spec fn base_url() -> Seq<char> {
        BASE_URL_DERIBIT@
    }

    /// One frame that names every stream.
    open spec fn frames(subs: Seq<ExchangeSub<DeribitChannel, DeribitMarket>>) -> Seq<Seq<char>> {
        seq![subscribe_frame(stream_names(subs))]
    }

    fn id() -> (id: ExchangeId) {
        ExchangeId::Deribit
    }

    fn url() -> (result: Result<String, SocketError>) {
        endpoint_of(BASE_URL_DERIBIT)
    }

    /// Deribit is given no keep-alive besides the transport's own.
    fn ping_interval() -> (ping: Option<PingInterval>)
        ensures
            ping is None,
    {
        None
    }

    fn requests(subs: Vec<ExchangeSub<DeribitChannel, DeribitMarket>>) -> (frames: Vec<String>) {
        let mut names: Vec<String> = Vec::new();
        let mut n: usize = 0;
        while n < subs.len()
            invariant
                n <= subs.len(),
                names.len() == n,
                texts(names@) == stream_names(subs@.take(n as int)),
            decreases subs.len() - n,
        {
            let ghost earlier = names@;
            let name = fill_template(subs[n].channel.as_ref(), subs[n].market.as_ref());
            assert(name@ == stream_name(subs@[n as int]));
            names.push(name);
            proof {
                let done = subs@.take(n + 1);
                assert(names@ == earlier.push(name));
                assert forall|k: int| 0 <= k < texts(names@).len() implies texts(names@)[k]
                    == stream_names(done)[k] by {
                    if k < n {
                        assert(texts(earlier)[k] == stream_names(subs@.take(n as int))[k]);
                        assert(names@[k] == earlier[k]);
                        assert(done[k] == subs@.take(n as int)[k]);
                    }
                }
                assert(texts(names@) =~= stream_names(done));
            }
            n += 1;
        }
        proof {
            assert(subs@.take(n as int) =~= subs@);
        }
        let mut frame = String::from_str(
            "{\"jsonrpc\":\"2.0\",\"method\":\"public/subscribe\",\"params\":{\"channels\":",
        );
        frame.append(json_string_array(&names).as_str());
        frame.append("}}");
        let frames = vec![frame];
        proof {
            assert(texts(frames@) =~= Self::frames(subs@));
        }
        frames
    }
}

/// On Deribit's three channels the name of a stream is the channel's fixed
/// text around the market, whatever the market holds.
pub proof fn lemma_stream_names(market: Seq<char>)
    ensures
        filled("trades.{}.raw"@, market) == "trades."@ + market + ".raw"@,
        filled("quote.{}"@, market) == "quote."@ + market,
        filled("book.{}.raw"@, market) == "book."@ + market + ".raw"@,
{
    reveal_strlit("{}");
    reveal_strlit("trades.{}.raw");
    reveal_strlit("trades.");
    reveal_strlit(".raw");
    reveal_strlit("quote.{}");
    reveal_strlit("quote.");
    reveal_strlit("book.{}.raw");
    reveal_strlit("book.");
    let hole = "{}"@;
    assert("trades.{}.raw"@ =~= "trades."@ + hole + ".raw"@);
    lemma_replaced_once("trades."@, hole, market, ".raw"@);
    assert("quote.{}"@ =~= "quote."@ + hole + Seq::<char>::empty());
    lemma_replaced_once("quote."@, hole, market, Seq::<char>::empty());
    assert("quote."@ + market + Seq::<char>::empty() =~= "quote."@ + market);
    assert("book.{}.raw"@ =~= "book."@ + hole + ".raw"@);
    lemma_replaced_once("book."@, hole, market, ".raw"@);
}

} // verus!
