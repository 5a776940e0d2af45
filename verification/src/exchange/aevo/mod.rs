//! Adapter for Aevo: plain op/data framing, and books guarded by a
//! checksum.

use vstd::prelude::*;
use crate::error::SocketError;
use crate::exchange::aevo::channel::AevoChannel;
use crate::exchange::aevo::market::AevoMarket;
use crate::exchange::{Connector, PingInterval, endpoint_of};
use crate::exchange::request::{json_array, json_string_array, texts};
use crate::exchange::subscription::ExchangeSub;
use crate::model::ExchangeId;

pub mod book;
pub mod channel;
pub mod market;
pub mod message;
pub mod subscription;

verus! {

/// The endpoint of Aevo.
pub const BASE_URL_AEVO: &'static str = "wss://ws.aevo.xyz";

/// Seconds after which Aevo closes a connection that sent nothing.
pub const PING_INTERVAL_AEVO: u64 = 840;

/// The venue Aevo.
#[derive(Clone, Copy, Debug, Default, PartialEq, Eq, Hash, Structural)]
pub struct Aevo;

/// The name of the stream of one subscription: channel and market with a
/// colon between them.
pub open spec fn stream_name(sub: ExchangeSub<AevoChannel, AevoMarket>) -> Seq<char> {
    sub.channel@ + ":"@ + sub.market@
}

/// The names of the streams of `subs`, in order.
pub open spec fn stream_names(subs: Seq<ExchangeSub<AevoChannel, AevoMarket>>) -> Seq<Seq<char>> {
    subs.map_values(|sub: ExchangeSub<AevoChannel, AevoMarket>| stream_name(sub))
}

/// The frame that subscribes to the streams `names`.
pub open spec fn subscribe_frame(names: Seq<Seq<char>>) -> Seq<char> {
    "{\"op\":\"subscribe\",\"data\":"@ + json_array(names) + "}"@
}

impl Connector for Aevo {
    type Channel = AevoChannel;

    type Market = AevoMarket;

    open spec fn venue() -> ExchangeId {
        ExchangeId::Aevo
    }

    open spec fn base_url() -> Seq<char> {
        BASE_URL_AEVO@
    }

    /// One frame that names every stream.
    open spec fn frames(subs: Seq<ExchangeSub<AevoChannel, AevoMarket>>) -> Seq<Seq<char>> {
        seq![subscribe_frame(stream_names(subs))]
    }

    fn id() -> (id: ExchangeId) {
        ExchangeId::Aevo
    }

    fn url() -> (result: Result<String, SocketError>) {
        endpoint_of(BASE_URL_AEVO)
    }

    /// Aevo wants no keep-alive besides the transport's own.
    fn ping_interval() -> (ping: Option<PingInterval>)
        ensures
            ping is None,
    {
        None
    }

    fn requests(subs: Vec<ExchangeSub<AevoChannel, AevoMarket>>) -> (frames: Vec<String>) {
        let mut names: Vec<String> = Vec::new();
        let mut n: usize = 0;
        while n < subs.len()
            invariant
                n <= subs.len(),
                names.len() == n,
                texts(names@) == stream_names(subs@.take(n as int)),
            decreases subs.len() - n,
        {
            let ghost earlier = names@;
            let mut name = String::from_str(subs[n].channel.as_ref());
            name.append(":");
            name.append(subs[n].market.as_ref());
            assert(name@ == stream_name(subs@[n as int]));
            names.push(name);
            proof {
                let done = subs@.take(n + 1);
                assert(names@ == earlier.push(name));
                assert(texts(names@).len() == stream_names(done).len());
                assert forall|k: int| 0 <= k < texts(names@).len() implies texts(names@)[k]
                    == stream_names(done)[k] by {
                    if k < n {
                        assert(texts(earlier)[k] == stream_names(subs@.take(n as int))[k]);
                        assert(names@[k] == earlier[k]);
                        assert(done[k] == subs@.take(n as int)[k]);
                    }
                }
                assert(texts(names@) =~= stream_names(done));
            }
            n += 1;
        }
        proof {
            assert(subs@.take(n as int) =~= subs@);
        }
        let mut frame = String::from_str("{\"op\":\"subscribe\",\"data\":");
        frame.append(json_string_array(&names).as_str());
        frame.append("}");
        let frames = vec![frame];
        proof {
            assert(texts(frames@) =~= Self::frames(subs@));
        }
        frames
    }
}

} // verus!
