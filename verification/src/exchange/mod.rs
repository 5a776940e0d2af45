//! One adapter per venue, and what every adapter has to offer.

use vstd::prelude::*;
use crate::error::SocketError;
use crate::exchange::request::texts;
use crate::exchange::subscription::ExchangeSub;
use crate::model::ExchangeId;

pub mod aevo;
pub mod bitfinex;
pub mod deribit;
pub mod market;
pub mod request;
pub mod subscription;

verus! {

/// What parsing `text` as an absolute URL gives: the URL in its normal
/// form, or the reason why the text is none.
pub uninterp spec fn parsed_url(text: Seq<char>) -> Result<Seq<char>, Seq<char>>;

/// Parses a URL with `url::Url::parse` and hands back the URL's text, or
/// the text of the parse error. The result is named, not defined.
#[verifier::external_body]
pub(crate) fn parse_url(text: &str) -> (result: Result<String, String>)
    ensures
        match result {
            Ok(url) => parsed_url(text@) == Ok::<Seq<char>, Seq<char>>(url@),
            Err(reason) => parsed_url(text@) == Err::<Seq<char>, Seq<char>>(reason@),
        },
{
    match url::Url::parse(text) {
        Ok(url) => Ok(url.into()),
        Err(error) => Err(error.to_string()),
    }
}

/// The endpoint that an adapter hands out for the address `text`: the URL
/// in its normal form, or the failure to parse it.
pub open spec fn endpoint(text: Seq<char>, result: Result<String, SocketError>) -> bool {
    match parsed_url(text) {
        Ok(url) => result matches Ok(found) && found@ == url,
        Err(reason) => result matches Err(SocketError::UrlParse(found)) && found@ == reason,
    }
}

/// The endpoint for the address `text`.
pub fn endpoint_of(text: &str) -> (result: Result<String, SocketError>)
    ensures
        endpoint(text@, result),
{
    match parse_url(text) {
        Ok(url) => Ok(url),
        Err(reason) => Err(SocketError::UrlParse(reason)),
    }
}

/// A keep-alive of the venue's own: the frame to send, and the seconds
/// between two of them.
#[derive(Clone, Debug, PartialEq, Eq)]
pub struct PingInterval {
    pub interval_secs: u64,
    pub frame: String,
}

/// What an adapter tells about its venue: where to connect, how to ask for
/// subscriptions, and whether the connection needs a keep-alive of its
/// own.
pub trait Connector {
    /// How the venue names a channel.
    type Channel;

    /// How the venue names a market.
    type Market;

    /// The venue of the adapter.
    spec fn venue() -> ExchangeId;

    /// The venue's endpoint.
    spec fn base_url() -> Seq<char>;

    /// The frames that ask for `subs`.
    spec fn frames(subs: Seq<ExchangeSub<Self::Channel, Self::Market>>) -> Seq<Seq<char>>;

    /// The venue of the adapter.
    fn id() -> (id: ExchangeId)
        ensures
            id == Self::venue(),
    ;

    /// The endpoint to connect to, in its normal form. Fails where the
    /// venue's address is no URL.
    fn url() -> (result: Result<String, SocketError>)
        ensures
            endpoint(Self::base_url(), result),
    ;

    /// The keep-alive that the venue wants besides the transport's own, if
    /// it wants one.
    fn ping_interval() -> (ping: Option<PingInterval>);

    /// The frames to send, in order, to subscribe to `subs`.
    fn requests(subs: Vec<ExchangeSub<Self::Channel, Self::Market>>) -> (frames: Vec<String>)
        ensures
            texts(frames@) == Self::frames(subs@),
    ;
}

} // verus!
