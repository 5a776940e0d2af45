use barter_data::error::SocketError;
use barter_data::exchange::aevo::channel::AevoChannel;
use barter_data::exchange::aevo::market::AevoMarket;
use barter_data::exchange::aevo::subscription::AevoSubResponse;
use barter_data::exchange::aevo::{Aevo, BASE_URL_AEVO, PING_INTERVAL_AEVO};
use barter_data::exchange::deribit::channel::DeribitChannel;
use barter_data::exchange::deribit::market::DeribitMarket;
use barter_data::exchange::deribit::subscription::{DeribitError, DeribitSubResponse};
use barter_data::exchange::deribit::{Deribit, BASE_URL_DERIBIT, PING_INTERVAL_DERIBIT};
use barter_data::exchange::market::{market_name, plain_market_name};
use barter_data::exchange::request::{fill_template, json_string_array};
use barter_data::exchange::subscription::{subscription_id, ExchangeSub};
use barter_data::exchange::{endpoint_of, Connector};
use barter_data::model::{
    ExchangeId, FutureContract, Instrument, InstrumentKind, OptionContract, OptionExercise,
    OptionKind, Strike, SubscriptionId,
};
use barter_data::subscription::{OrderBooksL1, OrderBooksL2, PublicTrades, Subscription};
use barter_data::Identifier;

fn instrument(kind: InstrumentKind) -> Instrument {
    Instrument::new("btc".to_string(), "usdc".to_string(), kind)
}

fn call(strike: i128, scale: u32) -> InstrumentKind {
    InstrumentKind::Option(OptionContract {
        kind: OptionKind::Call,
        exercise: OptionExercise::American,
        expiry: 1688120754000,
        strike: Strike { mantissa: strike, scale },
    })
}

#[test]
fn spot_market_is_base_and_quote() {
    assert_eq!(market_name(&instrument(InstrumentKind::Spot)), Some("BTC_USDC".to_string()));
}

#[test]
fn perpetual_market_is_named_so() {
    assert_eq!(
        market_name(&instrument(InstrumentKind::Perpetual)),
        Some("BTC-PERPETUAL".to_string())
    );
}

#[test]
fn future_market_carries_its_expiry() {
    let kind = InstrumentKind::Future(FutureContract { expiry: 1688120754000 });
    assert_eq!(market_name(&instrument(kind)), Some("BTC-30JUN23".to_string()));
    let first = InstrumentKind::Future(FutureContract { expiry: 1680307200000 });
    assert_eq!(market_name(&instrument(first)), Some("BTC-1APR23".to_string()));
}

#[test]
fn option_market_carries_expiry_strike_and_kind() {
    assert_eq!(market_name(&instrument(call(25000, 0))), Some("BTC-30JUN23-25000-C".to_string()));
    let put = InstrumentKind::Option(OptionContract {
        kind: OptionKind::Put,
        exercise: OptionExercise::European,
        expiry: 1703980800000,
        strike: Strike { mantissa: 505, scale: 1 },
    });
    assert_eq!(market_name(&instrument(put)), Some("BTC-31DEC23-50.5-P".to_string()));
}

#[test]
fn market_that_cannot_be_written_is_none() {
    let far = InstrumentKind::Future(FutureContract { expiry: i64::MAX });
    assert_eq!(market_name(&instrument(far)), None);
    assert_eq!(market_name(&instrument(call(1, 29))), None);
    assert_eq!(market_name(&instrument(call(i128::MAX, 0))), None);
}

#[test]
fn plain_name_is_put_together_from_its_parts() {
    assert_eq!(plain_market_name(&instrument(call(1, 0)), "1Jan24", "100"), "btc-1Jan24-100-C");
    assert_eq!(plain_market_name(&instrument(InstrumentKind::Spot), "x", "y"), "btc_usdc");
    assert_eq!(plain_market_name(&instrument(InstrumentKind::Perpetual), "x", "y"), "btc-PERPETUAL");
    let future = InstrumentKind::Future(FutureContract { expiry: 0 });
    assert_eq!(plain_market_name(&instrument(future), "1Jan70", "y"), "btc-1Jan70");
}

#[test]
fn subscription_names_its_market() {
    let aevo = Subscription {
        exchange: Aevo,
        instrument: instrument(InstrumentKind::Perpetual),
        kind: OrderBooksL2,
    };
    let market: Option<AevoMarket> = aevo.id();
    assert_eq!(market, Some(AevoMarket("BTC-PERPETUAL".to_string())));
    let deribit = Subscription {
        exchange: Deribit,
        instrument: instrument(call(25000, 0)),
        kind: PublicTrades,
    };
    let market: Option<DeribitMarket> = deribit.id();
    assert_eq!(market, Some(DeribitMarket("BTC-30JUN23-25000-C".to_string())));
    let unwritable = Subscription {
        exchange: Deribit,
        instrument: instrument(call(1, 40)),
        kind: PublicTrades,
    };
    let none: Option<DeribitMarket> = unwritable.id();
    assert_eq!(none, None);
}

#[test]
fn subscription_names_its_channel() {
    let perpetual = || instrument(InstrumentKind::Perpetual);
    let aevo = Subscription { exchange: Aevo, instrument: perpetual(), kind: OrderBooksL2 };
    let channel: AevoChannel = aevo.id();
    assert_eq!(channel.as_ref(), "orderbook");
    let trades = Subscription { exchange: Deribit, instrument: perpetual(), kind: PublicTrades };
    let channel: DeribitChannel = trades.id();
    assert_eq!(channel, DeribitChannel("trades.{}.raw"));
    let l1 = Subscription { exchange: Deribit, instrument: perpetual(), kind: OrderBooksL1 };
    let channel: DeribitChannel = l1.id();
    assert_eq!(channel, DeribitChannel("quote.{}"));
    let l2 = Subscription { exchange: Deribit, instrument: perpetual(), kind: OrderBooksL2 };
    let channel: DeribitChannel = l2.id();
    assert_eq!(channel, DeribitChannel("book.{}.raw"));
    assert_eq!(DeribitChannel::order_book_l2().as_ref(), "book.{}.raw");
    assert_eq!(AevoChannel::order_book_l2(), AevoChannel("orderbook"));
}

#[test]
fn subscription_key_joins_channel_and_market() {
    assert_eq!(
        subscription_id("book.{}.raw", "BTC-PERPETUAL"),
        SubscriptionId("book.{}.raw|BTC-PERPETUAL".to_string())
    );
    assert!(subscription_id("a", "b").same(&SubscriptionId("a|b".to_string())));
    assert!(!subscription_id("a", "b").same(&SubscriptionId("a|c".to_string())));
}

#[test]
fn template_is_filled_with_the_market() {
    assert_eq!(fill_template("book.{}.raw", "BTC-PERPETUAL"), "book.BTC-PERPETUAL.raw");
    assert_eq!(fill_template("quote.{}", "ETH_USDC"), "quote.ETH_USDC");
    assert_eq!(fill_template("trades.{}.raw", "{}"), "trades.{}.raw");
    assert_eq!(fill_template("{}{}", "ab"), "abab");
    assert_eq!(fill_template("plain", "x"), "plain");
    assert_eq!(fill_template("{", "x"), "{");
}

#[test]
fn names_become_a_json_array() {
    assert_eq!(json_string_array(&vec![]), "[]");
    assert_eq!(json_string_array(&vec!["a".to_string()]), "[\"a\"]");
    assert_eq!(
        json_string_array(&vec!["a".to_string(), "b\"c\\d\n".to_string()]),
        "[\"a\",\"b\\\"c\\\\d\\n\"]"
    );
}

#[test]
fn aevo_request_is_one_subscribe_frame() {
    let subs = vec![
        ExchangeSub {
            channel: AevoChannel::order_book_l2(),
            market: AevoMarket("BTC-PERPETUAL".to_string()),
        },
        ExchangeSub {
            channel: AevoChannel::order_book_l2(),
            market: AevoMarket("ETH-30JUN23-2000-C".to_string()),
        },
    ];
    assert_eq!(
        Aevo::requests(subs),
        vec![
            "{\"op\":\"subscribe\",\"data\":[\"orderbook:BTC-PERPETUAL\",\"orderbook:ETH-30JUN23-2000-C\"]}"
                .to_string()
        ]
    );
    assert_eq!(Aevo::requests(vec![]), vec!["{\"op\":\"subscribe\",\"data\":[]}".to_string()]);
}

#[test]
fn deribit_request_is_one_json_rpc_frame() {
    let subs = vec![
        ExchangeSub {
            channel: DeribitChannel::order_book_l2(),
            market: DeribitMarket("BTC-PERPETUAL".to_string()),
        },
        ExchangeSub {
            channel: DeribitChannel::trades_raw(),
            market: DeribitMarket("ETH_USDC".to_string()),
        },
        ExchangeSub {
            channel: DeribitChannel::order_book_l1(),
            market: DeribitMarket("BTC-30JUN23".to_string()),
        },
    ];
    assert_eq!(
        Deribit::requests(subs),
        vec![
            "{\"jsonrpc\":\"2.0\",\"method\":\"public/subscribe\",\"params\":{\"channels\":[\"book.BTC-PERPETUAL.raw\",\"trades.ETH_USDC.raw\",\"quote.BTC-30JUN23\"]}}"
                .to_string()
        ]
    );
}

#[test]
fn venues_know_their_endpoints() {
    assert_eq!(BASE_URL_AEVO, "wss://ws.aevo.xyz");
    assert_eq!(BASE_URL_DERIBIT, "wss://streams.deribit.com/ws/api/v2");
    match Aevo::url() {
        Ok(url) => assert_eq!(url, "wss://ws.aevo.xyz/"),
        Err(error) => panic!("no endpoint: {:?}", error),
    }
    match Deribit::url() {
        Ok(url) => assert_eq!(url, "wss://streams.deribit.com/ws/api/v2"),
        Err(error) => panic!("no endpoint: {:?}", error),
    }
    assert_eq!(Aevo::id(), ExchangeId::Aevo);
    assert_eq!(Deribit::id(), ExchangeId::Deribit);
    assert_eq!(ExchangeId::Bitfinex.as_str(), "bitfinex");
    assert_eq!(ExchangeId::Aevo.as_str(), "aevo");
    assert_eq!(ExchangeId::Deribit.as_str(), "deribit");
}

#[test]
fn text_that_is_no_url_is_refused() {
    match endpoint_of("not a url") {
        Err(SocketError::UrlParse(reason)) => {
            assert_eq!(reason, "relative URL without a base")
        }
        other => panic!("expected a parse failure, got {:?}", other),
    }
}

#[test]
fn venues_ask_for_no_ping_of_their_own() {
    assert_eq!(Aevo::ping_interval(), None);
    assert_eq!(Deribit::ping_interval(), None);
    assert_eq!(PING_INTERVAL_AEVO, 840);
    assert_eq!(PING_INTERVAL_DERIBIT, 29);
}

#[test]
fn aevo_answer_with_channels_is_valid() {
    let answer =
        AevoSubResponse { data: vec!["orderbook:BTC-30JUN23-30000-C".to_string()], error: None };
    match answer.clone().validate() {
        Ok(same) => assert_eq!(same, answer),
        Err(error) => panic!("expected a valid answer, got {:?}", error),
    }
}

#[test]
fn aevo_answer_without_channels_is_a_failure() {
    match (AevoSubResponse { data: vec![], error: None }).validate() {
        Err(SocketError::Subscribe(text)) => {
            assert_eq!(text, "Received empty subscription response")
        }
        other => panic!("expected a failure, got {:?}", other),
    }
}

#[test]
fn aevo_answer_with_an_error_is_a_failure() {
    let answer = AevoSubResponse { data: vec!["x".to_string()], error: Some("denied".to_string()) };
    match answer.validate() {
        Err(SocketError::Subscribe(text)) => {
            assert_eq!(text, "Received failure subscription response with message: denied")
        }
        other => panic!("expected a failure, got {:?}", other),
    }
}

fn deribit_answer(result: Option<Vec<String>>, error: Option<DeribitError>) -> DeribitSubResponse {
    DeribitSubResponse { jsonrpc: "2.0".to_string(), id: Some(3600), result, error }
}

#[test]
fn deribit_answer_with_channels_is_valid() {
    let answer = deribit_answer(Some(vec!["deribit_price_index.btc_usd".to_string()]), None);
    match answer.clone().validate() {
        Ok(same) => assert_eq!(same, answer),
        Err(error) => panic!("expected a valid answer, got {:?}", error),
    }
}

#[test]
fn deribit_answer_without_channels_is_a_failure() {
    for answer in [deribit_answer(Some(vec![]), None), deribit_answer(None, None)] {
        match answer.validate() {
            Err(SocketError::Subscribe(text)) => {
                assert_eq!(text, "Received empty subscription response")
            }
            other => panic!("expected a failure, got {:?}", other),
        }
    }
}

#[test]
fn deribit_answer_with_an_error_is_a_failure() {
    let error = DeribitError { code: 11050, message: "bad_request".to_string() };
    match deribit_answer(Some(vec!["x".to_string()]), Some(error)).validate() {
        Err(SocketError::Subscribe(text)) => assert_eq!(
            text,
            "Received failure subscription response code: 11050 with message: bad_request"
        ),
        other => panic!("expected a failure, got {:?}", other),
    }
    let negative = DeribitError { code: -32602, message: "Invalid params".to_string() };
    match deribit_answer(None, Some(negative)).validate() {
        Err(SocketError::Subscribe(text)) => assert_eq!(
            text,
            "Received failure subscription response code: -32602 with message: Invalid params"
        ),
        other => panic!("expected a failure, got {:?}", other),
    }
}
