use barter_data::error::SocketError;
use barter_data::event::MarketEvent;
use barter_data::model::{ExchangeId, Instrument, InstrumentKind};
use barter_data::streams::{StreamBuilder, Streams};

fn instrument() -> Instrument {
    Instrument::new("btc".to_string(), "usd".to_string(), InstrumentKind::Spot)
}

fn event(exchange: ExchangeId, n: u32) -> MarketEvent<u32> {
    MarketEvent {
        exchange_time: n as i64,
        received_time: n as i64 + 1,
        exchange,
        instrument: instrument(),
        kind: n,
    }
}

fn numbers(events: &Vec<MarketEvent<u32>>) -> Vec<u32> {
    events.iter().map(|event| event.kind).collect()
}

fn filled() -> Streams<u32> {
    let mut streams = Streams::new();
    streams.open(ExchangeId::Deribit);
    streams.open(ExchangeId::Aevo);
    for (exchange, n) in [
        (ExchangeId::Aevo, 1),
        (ExchangeId::Deribit, 2),
        (ExchangeId::Aevo, 3),
        (ExchangeId::Deribit, 4),
        (ExchangeId::Deribit, 5),
    ] {
        assert!(streams.send(event(exchange, n)));
    }
    streams
}

#[test]
fn select_hands_out_the_events_of_one_venue_in_order() {
    let mut streams = filled();
    let deribit = streams.select(ExchangeId::Deribit).unwrap();
    assert_eq!(numbers(&deribit), vec![2, 4, 5]);
    assert!(deribit.iter().all(|event| event.exchange == ExchangeId::Deribit));
    let aevo = streams.select(ExchangeId::Aevo).unwrap();
    assert_eq!(numbers(&aevo), vec![1, 3]);
    assert!(aevo.iter().all(|event| event.exchange == ExchangeId::Aevo));
}

#[test]
fn select_of_a_venue_without_queue_finds_nothing() {
    let mut streams = filled();
    assert!(streams.select(ExchangeId::Bitfinex).is_none());
    assert!(streams.select(ExchangeId::Deribit).is_some());
    assert!(streams.select(ExchangeId::Deribit).is_none());
    assert_eq!(numbers(&streams.select(ExchangeId::Aevo).unwrap()), vec![1, 3]);
}

#[test]
fn event_of_a_venue_without_queue_is_dropped() {
    let mut streams = filled();
    assert!(!streams.send(event(ExchangeId::Bitfinex, 9)));
    assert_eq!(numbers(&streams.join()), vec![2, 4, 5, 1, 3]);
}

#[test]
fn opening_a_queue_twice_keeps_what_waits_in_it() {
    let mut streams = filled();
    streams.open(ExchangeId::Aevo);
    assert_eq!(streams.streams.len(), 2);
    assert_eq!(numbers(&streams.select(ExchangeId::Aevo).unwrap()), vec![1, 3]);
}

#[test]
fn join_is_the_union_of_the_queues() {
    let joined = filled().join();
    assert_eq!(joined.len(), 5);
    let mut all = numbers(&joined);
    all.sort();
    assert_eq!(all, vec![1, 2, 3, 4, 5]);
    let deribit: Vec<u32> = joined
        .iter()
        .filter(|event| event.exchange == ExchangeId::Deribit)
        .map(|event| event.kind)
        .collect();
    assert_eq!(deribit, vec![2, 4, 5]);
    let aevo: Vec<u32> = joined
        .iter()
        .filter(|event| event.exchange == ExchangeId::Aevo)
        .map(|event| event.kind)
        .collect();
    assert_eq!(aevo, vec![1, 3]);
    assert!(Streams::<u32>::new().join().is_empty());
}

fn builder() -> StreamBuilder {
    StreamBuilder::new()
        .subscribe(vec![(ExchangeId::Deribit, instrument()), (ExchangeId::Deribit, instrument())])
        .subscribe(vec![(ExchangeId::Aevo, instrument())])
        .subscribe(vec![(ExchangeId::Deribit, instrument())])
}

#[test]
fn each_subscribe_makes_a_group() {
    let builder = builder();
    assert_eq!(builder.groups.len(), 3);
    assert_eq!(builder.groups[0].len(), 2);
    assert_eq!(builder.groups[1][0].0, ExchangeId::Aevo);
}

#[test]
fn init_opens_a_queue_per_venue() {
    let mut streams: Streams<u32> = match builder().init(vec![None, None, None]) {
        Ok(streams) => streams,
        Err(error) => panic!("unexpected failures {:?}", error.failed),
    };
    assert_eq!(streams.streams.len(), 2);
    assert!(streams.select(ExchangeId::Deribit).unwrap().is_empty());
    assert!(streams.select(ExchangeId::Aevo).unwrap().is_empty());
    assert!(streams.select(ExchangeId::Bitfinex).is_none());
}

#[test]
fn failed_group_is_reported_and_stops_no_other() {
    let outcomes =
        vec![None, Some(SocketError::Subscribe("Received empty subscription response".to_string())), None];
    match builder().init::<u32>(outcomes) {
        Ok(_) => panic!("expected a failure"),
        Err(mut error) => {
            assert_eq!(error.failed.len(), 1);
            assert_eq!(error.failed[0].0, 1);
            match &error.failed[0].1 {
                SocketError::Subscribe(text) => {
                    assert_eq!(text, "Received empty subscription response")
                }
                other => panic!("unexpected failure {:?}", other),
            }
            assert!(error.streams.select(ExchangeId::Deribit).is_some());
            assert!(error.streams.select(ExchangeId::Aevo).is_none());
        }
    }
}

#[test]
fn venue_of_a_failed_group_keeps_its_queue_through_another_group() {
    let outcomes = vec![
        Some(SocketError::Subscribe("first".to_string())),
        None,
        None,
    ];
    match builder().init::<u32>(outcomes) {
        Ok(_) => panic!("expected a failure"),
        Err(mut error) => {
            assert_eq!(error.failed.len(), 1);
            assert_eq!(error.failed[0].0, 0);
            assert!(error.streams.select(ExchangeId::Deribit).is_some());
            assert!(error.streams.select(ExchangeId::Aevo).is_some());
        }
    }
}

#[test]
fn every_failure_is_reported_in_order() {
    let outcomes = vec![
        Some(SocketError::Subscribe("first".to_string())),
        Some(SocketError::UrlParse("second".to_string())),
        Some(SocketError::Subscribe("third".to_string())),
    ];
    match builder().init::<u32>(outcomes) {
        Ok(_) => panic!("expected a failure"),
        Err(error) => {
            let groups: Vec<usize> = error.failed.iter().map(|failure| failure.0).collect();
            assert_eq!(groups, vec![0, 1, 2]);
            assert!(error.streams.streams.is_empty());
        }
    }
}

#[test]
fn builder_without_groups_opens_nothing() {
    match StreamBuilder::new().init::<u32>(vec![]) {
        Ok(streams) => assert!(streams.streams.is_empty()),
        Err(error) => panic!("unexpected failures {:?}", error.failed),
    }
}
