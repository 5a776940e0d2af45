use barter_data::book::{Level, OrderBook};
use barter_data::error::{DataError, SocketError};
use barter_data::exchange::deribit::book::l2::{
    DeribitBookUpdater, DeribitOrderBookL2, DeribitOrderBookL2Delta,
};
use barter_data::exchange::deribit::book::{Delta, DeribitLevel};
use barter_data::exchange::deribit::message::{SingleData, SubscriptionMethod};
use barter_data::model::{ExchangeId, Instrument, InstrumentKind, SubscriptionId};
use barter_data::book::{OrderBookSide, Side};
use barter_data::event::{OrderBookL1, PublicTrade};
use barter_data::exchange::deribit::book::l1::{DeribitOrderBookL1, DeribitOrderBookL1Inner};
use barter_data::exchange::deribit::message::{DeribitMultipleDataMessage, MultipleData};
use barter_data::exchange::deribit::trade::{DeribitTrade, DeribitTrades};
use barter_data::subscription::SubscriptionMap;
use barter_data::transformer::{
    publish, MultiBookTransformer, Normalise, OrderBookUpdater, StatelessTransformer,
};

fn instrument(base: &str) -> Instrument {
    Instrument::new(base.to_string(), "usd".to_string(), InstrumentKind::Perpetual)
}

fn key(market: &str) -> SubscriptionId {
    SubscriptionId(format!("book.{{}}.raw|{}", market))
}

fn message(
    market: &str,
    change_id: u64,
    prev_change_id: Option<u64>,
    bids: Vec<DeribitLevel>,
    asks: Vec<DeribitLevel>,
) -> DeribitOrderBookL2 {
    DeribitOrderBookL2 {
        jsonrpc: "2.0".to_string(),
        method: SubscriptionMethod::Subscription,
        params: SingleData {
            data: DeribitOrderBookL2Delta {
                instrument_name: market.to_string(),
                change_id,
                prev_change_id,
                bids,
                asks,
            },
            channel: format!("book.{}.raw", market),
        },
    }
}

fn two_books() -> MultiBookTransformer<DeribitBookUpdater> {
    let mut transformer = MultiBookTransformer::new(ExchangeId::Deribit);
    transformer.subscribe(key("BTC-PERPETUAL"), instrument("btc"), 1).unwrap();
    transformer.subscribe(key("ETH-PERPETUAL"), instrument("eth"), 1).unwrap();
    transformer
}

#[test]
fn subscribing_starts_an_empty_book_per_key() {
    let transformer = two_books();
    assert_eq!(transformer.exchange, ExchangeId::Deribit);
    assert_eq!(transformer.book_map.entries.len(), 2);
    assert_eq!(transformer.book_map.find(&key("BTC-PERPETUAL")), Some(0));
    assert_eq!(transformer.book_map.find(&key("ETH-PERPETUAL")), Some(1));
    assert_eq!(transformer.book_map.find(&key("SOL-PERPETUAL")), None);
    assert_eq!(transformer.book_map.entries[1].1.instrument, instrument("eth"));
    assert!(transformer.book_map.entries[1].1.book.bids.levels.is_empty());
    assert_eq!(transformer.book_map.entries[1].1.updater, DeribitBookUpdater::new(0));
}

#[test]
fn subscribing_again_starts_the_book_anew() {
    let mut transformer = two_books();
    transformer.transform(
        message("BTC-PERPETUAL", 1, None, vec![DeribitLevel(Delta::New, 10, 1)], vec![]),
        2,
    );
    assert_eq!(transformer.book_map.entries[0].1.book.bids.levels.len(), 1);
    transformer.subscribe(key("BTC-PERPETUAL"), instrument("btc"), 3).unwrap();
    assert_eq!(transformer.book_map.entries.len(), 2);
    assert!(transformer.book_map.entries[0].1.book.bids.levels.is_empty());
    assert_eq!(transformer.book_map.entries[0].1.updater.updates_processed, 0);
    assert_eq!(transformer.book_map.entries[0].1.book.last_update_time, 3);
}

#[test]
fn message_is_applied_to_its_own_book() {
    let mut transformer = two_books();
    let mut events = transformer.transform(
        message(
            "ETH-PERPETUAL",
            1,
            None,
            vec![DeribitLevel(Delta::New, 10, 1)],
            vec![DeribitLevel(Delta::New, 11, 2)],
        ),
        50,
    );
    assert_eq!(events.len(), 1);
    match events.remove(0) {
        Ok(event) => {
            assert_eq!(event.exchange, ExchangeId::Deribit);
            assert_eq!(event.instrument, instrument("eth"));
            assert_eq!(event.exchange_time, 50);
            assert_eq!(event.received_time, 50);
            assert_eq!(event.kind.bids.levels, vec![Level::new(10, 1)]);
            assert_eq!(event.kind.asks.levels, vec![Level::new(11, 2)]);
        }
        Err(error) => panic!("unexpected failure {:?}", error),
    }
    assert!(transformer.book_map.entries[0].1.book.bids.levels.is_empty());
    assert_eq!(transformer.book_map.entries[0].1.updater.updates_processed, 0);
    assert_eq!(transformer.book_map.entries[1].1.updater.updates_processed, 1);
    assert_eq!(transformer.book_map.entries[1].1.book.bids.levels, vec![Level::new(10, 1)]);
}

#[test]
fn message_of_an_unknown_subscription_is_reported_and_dropped() {
    let mut transformer = two_books();
    let mut events = transformer.transform(
        message("SOL-PERPETUAL", 1, None, vec![DeribitLevel(Delta::New, 10, 1)], vec![]),
        50,
    );
    assert_eq!(events.len(), 1);
    match events.remove(0) {
        Err(DataError::Socket(SocketError::Unidentifiable(id))) => {
            assert_eq!(id, key("SOL-PERPETUAL"))
        }
        other => panic!("expected an unidentifiable message, got {:?}", other),
    }
    assert!(transformer.book_map.entries[0].1.book.bids.levels.is_empty());
    assert!(transformer.book_map.entries[1].1.book.bids.levels.is_empty());
    assert_eq!(transformer.book_map.entries[0].1.updater.updates_processed, 0);
}

#[test]
fn gap_is_surfaced_and_leaves_the_other_book_alone() {
    let mut transformer = two_books();
    transformer.transform(
        message("BTC-PERPETUAL", 1, None, vec![DeribitLevel(Delta::New, 10, 1)], vec![]),
        2,
    );
    transformer.transform(
        message("ETH-PERPETUAL", 7, None, vec![DeribitLevel(Delta::New, 20, 2)], vec![]),
        3,
    );
    let mut events = transformer.transform(
        message("BTC-PERPETUAL", 3, Some(2), vec![DeribitLevel(Delta::Delete, 10, 0)], vec![]),
        4,
    );
    assert_eq!(events.len(), 1);
    match events.remove(0) {
        Err(error) => {
            assert!(error.is_terminal());
            match error {
                DataError::InvalidSequence { expected, received } => {
                    assert_eq!(expected, 1);
                    assert_eq!(received, 3);
                }
                other => panic!("expected an invalid sequence, got {:?}", other),
            }
        }
        Ok(event) => panic!("unexpected event {:?}", event),
    }
    assert_eq!(transformer.book_map.entries[0].1.book.bids.levels, vec![Level::new(10, 1)]);
    assert_eq!(transformer.book_map.entries[1].1.book.bids.levels, vec![Level::new(20, 2)]);
    let next = transformer.transform(
        message("ETH-PERPETUAL", 8, Some(7), vec![DeribitLevel(Delta::Change, 20, 5)], vec![]),
        5,
    );
    assert_eq!(next.len(), 1);
    assert!(next[0].is_ok());
}

#[test]
fn unroutable_message_is_no_terminal_failure() {
    let error = DataError::Socket(SocketError::Unidentifiable(key("X")));
    assert!(!error.is_terminal());
    assert!(DataError::InvalidSequence { expected: 1, received: 2 }.is_terminal());
}

#[test]
fn outcome_of_an_update_is_published() {
    let book = OrderBook::new(9, vec![Level::new(1, 1)], vec![]);
    let mut events = publish(Ok(Some(book)), ExchangeId::Aevo, &instrument("btc"), 12);
    assert_eq!(events.len(), 1);
    match events.remove(0) {
        Ok(event) => {
            assert_eq!(event.exchange_time, 9);
            assert_eq!(event.received_time, 12);
            assert_eq!(event.exchange, ExchangeId::Aevo);
            assert_eq!(event.instrument, instrument("btc"));
            assert_eq!(event.kind.bids.levels, vec![Level::new(1, 1)]);
        }
        Err(error) => panic!("unexpected failure {:?}", error),
    }
    assert!(publish(Ok(None), ExchangeId::Aevo, &instrument("btc"), 12).is_empty());
    let mut failed = publish(
        Err(DataError::InvalidSequence { expected: 4, received: 6 }),
        ExchangeId::Aevo,
        &instrument("btc"),
        12,
    );
    assert_eq!(failed.len(), 1);
    match failed.remove(0) {
        Err(DataError::InvalidSequence { expected, received }) => {
            assert_eq!((expected, received), (4, 6))
        }
        other => panic!("expected an invalid sequence, got {:?}", other),
    }
}

#[test]
fn updater_names_the_subscription_of_a_message() {
    let id = DeribitBookUpdater::subscription_id(&message("BTC-PERPETUAL", 1, None, vec![], vec![]));
    assert_eq!(id, Some(key("BTC-PERPETUAL")));
    assert!(DeribitBookUpdater::new(0).is_ready());
    let full = DeribitBookUpdater { updates_processed: u64::MAX, change_id: 0, prev_change_id: 0 };
    assert!(!full.is_ready());
}

#[test]
fn transformer_checks_itself() {
    let mut transformer = two_books();
    assert!(transformer.is_wf());
    assert!(transformer.is_ready());
    transformer.book_map.entries[0].1.updater.updates_processed = u64::MAX;
    assert!(!transformer.is_ready());
    transformer.book_map.entries[1].1.book.bids.levels.push(Level::new(5, 0));
    assert!(!transformer.is_wf());
    let mut twice = two_books();
    twice.book_map.entries[1].0 = key("BTC-PERPETUAL");
    assert!(!twice.is_wf());
}

#[test]
fn map_keeps_one_value_per_key() {
    let mut map: SubscriptionMap<u32> = SubscriptionMap::new();
    assert!(map.is_wf());
    map.insert(key("A"), 1);
    map.insert(key("B"), 2);
    map.insert(key("A"), 3);
    assert_eq!(map.entries.len(), 2);
    assert_eq!(map.find(&key("A")), Some(0));
    assert_eq!(map.find(&key("B")), Some(1));
    assert_eq!(map.find(&key("C")), None);
    assert_eq!(map.entries[0].1, 3);
    assert_eq!(map.entries[1].1, 2);
    map.entries.push((key("B"), 9));
    assert!(!map.is_wf());
}

#[test]
fn book_checks_itself() {
    let mut book = OrderBook::new(0, vec![Level::new(10, 1), Level::new(9, 1)], vec![Level::new(11, 1)]);
    assert!(book.is_wf());
    assert!(!book.is_crossed());
    book.asks.upsert_single(Level::new(10, 2));
    assert!(book.is_wf());
    assert!(book.is_crossed());
    assert!(!OrderBook::empty(0).is_crossed());
    assert!(!OrderBook::new(0, vec![Level::new(10, 1)], vec![]).is_crossed());
    book.bids.levels.swap(0, 1);
    assert!(!book.is_wf());
    let mut doubled = OrderBookSide::new(Side::Sell, vec![Level::new(10, 1)]);
    doubled.levels.push(Level::new(10, 2));
    assert!(!doubled.is_wf());
    let mut empty_level = OrderBookSide::empty(Side::Buy);
    empty_level.levels.push(Level::new(10, 0));
    assert!(!empty_level.is_wf());
    let mut wrong_side = OrderBook::empty(0);
    wrong_side.bids.side = Side::Sell;
    assert!(!wrong_side.is_wf());
}

fn trades(market: &str, ids: &[&str]) -> DeribitTrades {
    DeribitMultipleDataMessage {
        jsonrpc: "2.0".to_string(),
        method: SubscriptionMethod::Subscription,
        params: MultipleData {
            data: ids
                .iter()
                .map(|id| DeribitTrade {
                    id: id.to_string(),
                    price: 7,
                    amount: 3,
                    side: Side::Buy,
                    instrument_name: market.to_string(),
                    time: 100,
                })
                .collect(),
            channel: format!("trades.{}.raw", market),
        },
    }
}

fn stateless() -> StatelessTransformer {
    let mut transformer = StatelessTransformer::new(ExchangeId::Deribit);
    transformer
        .subscribe(SubscriptionId("trades.{}.raw|BTC-PERPETUAL".to_string()), instrument("btc"));
    transformer.subscribe(SubscriptionId("quote.{}|ETH-PERPETUAL".to_string()), instrument("eth"));
    transformer
}

#[test]
fn trades_are_turned_into_events_for_their_instrument() {
    let events = stateless().transform(trades("BTC-PERPETUAL", &["1", "2"]), 150);
    assert_eq!(events.len(), 2);
    for (event, id) in events.into_iter().zip(["1", "2"]) {
        match event {
            Ok(event) => {
                assert_eq!(event.instrument, instrument("btc"));
                assert_eq!(event.exchange, ExchangeId::Deribit);
                assert_eq!(event.exchange_time, 100);
                assert_eq!(event.received_time, 150);
                assert_eq!(
                    event.kind,
                    PublicTrade { id: id.to_string(), price: 7, amount: 3, side: Side::Buy }
                );
            }
            Err(error) => panic!("unexpected failure {:?}", error),
        }
    }
}

#[test]
fn trades_of_an_unknown_subscription_are_reported() {
    let mut events = stateless().transform(trades("SOL-PERPETUAL", &["1"]), 150);
    assert_eq!(events.len(), 1);
    match events.remove(0) {
        Err(DataError::Socket(SocketError::Unidentifiable(id))) => {
            assert_eq!(id, SubscriptionId("trades.{}.raw|SOL-PERPETUAL".to_string()))
        }
        other => panic!("expected an unidentifiable message, got {:?}", other),
    }
    assert!(stateless().transform(trades("BTC-PERPETUAL", &[]), 150).is_empty());
}

#[test]
fn quote_is_turned_into_an_event_for_its_instrument() {
    let quote = DeribitOrderBookL1 {
        jsonrpc: "2.0".to_string(),
        method: SubscriptionMethod::Subscription,
        params: SingleData {
            data: DeribitOrderBookL1Inner {
                instrument_name: "ETH-PERPETUAL".to_string(),
                best_bid_price: 10,
                best_bid_amount: 1,
                best_ask_price: 11,
                best_ask_amount: 2,
                time: 77,
            },
            channel: "quote.ETH-PERPETUAL".to_string(),
        },
    };
    assert_eq!(
        Normalise::<OrderBookL1>::subscription_id(&quote),
        Some(SubscriptionId("quote.{}|ETH-PERPETUAL".to_string()))
    );
    let mut events = stateless().transform(quote, 80);
    assert_eq!(events.len(), 1);
    match events.remove(0) {
        Ok(event) => {
            assert_eq!(event.instrument, instrument("eth"));
            assert_eq!(event.exchange_time, 77);
            assert_eq!(event.received_time, 80);
            assert_eq!(
                event.kind,
                OrderBookL1 {
                    last_update_time: 77,
                    best_bid: Level::new(10, 1),
                    best_ask: Level::new(11, 2)
                }
            );
        }
        Err(error) => panic!("unexpected failure {:?}", error),
    }
}

#[test]
fn streams_check_themselves() {
    let mut streams: barter_data::streams::Streams<u8> = barter_data::streams::Streams::new();
    streams.open(ExchangeId::Aevo);
    streams.open(ExchangeId::Deribit);
    assert!(streams.is_wf());
    streams.streams[0].1.push(barter_data::event::MarketEvent {
        exchange_time: 0,
        received_time: 0,
        exchange: ExchangeId::Deribit,
        instrument: instrument("btc"),
        kind: 1,
    });
    assert!(!streams.is_wf());
    streams.streams[0].1.clear();
    assert!(streams.is_wf());
    streams.streams[1].0 = ExchangeId::Aevo;
    assert!(!streams.is_wf());
}
