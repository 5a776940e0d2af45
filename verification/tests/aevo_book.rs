use barter_data::book::{Level, OrderBook};
use barter_data::error::DataError;
use barter_data::exchange::aevo::book::l2::{
    checksum_preimage, AevoBookUpdater, AevoOrderBookL2, AevoOrderBookL2Delta,
};
use barter_data::exchange::aevo::book::AevoLevel;
use barter_data::model::{Instrument, InstrumentKind, SubscriptionId};
use barter_data::transformer::OrderBookUpdater;
use barter_data::Identifier;

const ONE: u64 = 100_000_000;

fn entry(price: u64, amount: u64) -> AevoLevel {
    AevoLevel { price: price * ONE, amount: amount * ONE, iv: 0 }
}

fn message(kind: &str, bids: Vec<AevoLevel>, asks: Vec<AevoLevel>, checksum: u32) -> AevoOrderBookL2 {
    AevoOrderBookL2 {
        data: AevoOrderBookL2Delta {
            message_type: kind.to_string(),
            instrument_id: "1".to_string(),
            instrument_name: "ETH-PERP".to_string(),
            instrument_type: "PERPETUAL".to_string(),
            bids,
            asks,
            checksum,
        },
        channel: Some("orderbook:ETH-PERP".to_string()),
        id: None,
        error: None,
    }
}

#[test]
fn preimage_interleaves_bids_and_asks() {
    let bids = vec![Level::new(100 * ONE, 2 * ONE), Level::new(99 * ONE, 5 * ONE)];
    let asks = vec![Level::new(101 * ONE, 3 * ONE), Level::new(102 * ONE, 4 * ONE)];
    assert_eq!(checksum_preimage(&bids, &asks), b"100:2:101:3:99:5:102:4".to_vec());
}

#[test]
fn preimage_goes_on_with_the_longer_side() {
    let bids = vec![Level::new(100 * ONE, 2 * ONE)];
    let asks = vec![
        Level::new(101 * ONE, 3 * ONE),
        Level::new(102 * ONE, 4 * ONE),
        Level::new(10_350_000_000, 25_000_000),
    ];
    assert_eq!(checksum_preimage(&bids, &asks), b"100:2:101:3:102:4:103.5:0.25".to_vec());
    assert_eq!(checksum_preimage(&asks, &Vec::new()), b"101:3:102:4:103.5:0.25".to_vec());
}

#[test]
fn preimage_of_an_empty_book_is_empty() {
    assert!(checksum_preimage(&Vec::new(), &Vec::new()).is_empty());
    assert_eq!(AevoBookUpdater::new(0).checksum(&Vec::new(), &Vec::new()), 0);
}

#[test]
fn checksum_is_the_crc32_of_the_preimage() {
    let updater = AevoBookUpdater::new(0);
    let bids = vec![Level::new(100 * ONE, 2 * ONE)];
    let asks = vec![Level::new(101 * ONE, 3 * ONE)];
    assert_eq!(updater.checksum(&bids, &asks), 2567692672);
    assert_eq!(updater.checksum(&bids, &Vec::new()), 1667101923);
    assert_eq!(updater.checksum(&Vec::new(), &asks), 362327618);
    let bids2 = vec![Level::new(100 * ONE, 2 * ONE), Level::new(99 * ONE, 5 * ONE)];
    let asks2 = vec![Level::new(101 * ONE, 3 * ONE), Level::new(102 * ONE, 4 * ONE)];
    assert_eq!(updater.checksum(&bids2, &asks2), 2923597046);
}

#[test]
fn checksum2_reads_the_entries_of_a_message() {
    let updater = AevoBookUpdater::new(0);
    assert_eq!(updater.checksum2(&vec![entry(100, 2)], &vec![entry(101, 3)]), 2567692672);
    let with_iv = AevoLevel { price: 100 * ONE, amount: 2 * ONE, iv: 77 };
    assert_eq!(updater.checksum2(&vec![with_iv], &vec![entry(101, 3)]), 2567692672);
}

#[test]
fn checksum_covers_a_hundred_levels_of_each_side() {
    let updater = AevoBookUpdater::new(0);
    let mut bids = Vec::new();
    let mut asks = Vec::new();
    for i in 0..100u64 {
        bids.push(Level::new((1000 - i) * ONE, ONE));
        asks.push(Level::new((1001 + i) * ONE, 2 * ONE));
    }
    let top = updater.checksum(&bids, &asks);
    assert_eq!(top, 3889360702);
    bids.push(Level::new(5 * ONE, 9 * ONE));
    asks.push(Level::new(5000 * ONE, 9 * ONE));
    asks.push(Level::new(6000 * ONE, 9 * ONE));
    assert_eq!(updater.checksum(&bids, &asks), top);
    bids[99] = Level::new(900 * ONE, 3 * ONE);
    assert_ne!(updater.checksum(&bids, &asks), top);
}

#[test]
fn one_changed_level_changes_the_checksum() {
    let updater = AevoBookUpdater::new(0);
    let bids = vec![Level::new(100 * ONE, 2 * ONE)];
    let asks = vec![Level::new(101 * ONE, 3 * ONE)];
    let base = updater.checksum(&bids, &asks);
    assert_ne!(updater.checksum(&vec![Level::new(100 * ONE, 2 * ONE + 1)], &asks), base);
    assert_ne!(updater.checksum(&vec![Level::new(100 * ONE + 1, 2 * ONE)], &asks), base);
    assert_ne!(updater.checksum(&bids, &vec![Level::new(101 * ONE, 4 * ONE)]), base);
}

#[test]
fn init_starts_with_an_empty_book_at_checksum_zero() {
    let instrument =
        Instrument::new("eth".to_string(), "usdc".to_string(), InstrumentKind::Perpetual);
    let state = AevoBookUpdater::init(instrument.clone(), 9).unwrap();
    assert_eq!(state.instrument, instrument);
    assert_eq!(state.updater, AevoBookUpdater::new(0));
    assert_eq!(state.updater.last_checksum, 0);
    assert_eq!(state.updater.updates_processed, 0);
    assert!(state.book.bids.levels.is_empty());
    assert!(state.book.asks.levels.is_empty());
    assert_eq!(state.book.last_update_time, 9);
}

#[test]
fn snapshot_with_the_right_checksum_is_applied() {
    let mut updater = AevoBookUpdater::new(0);
    let mut book = OrderBook::empty(0);
    let out = updater
        .update(
            &mut book,
            message("snapshot", vec![entry(100, 2)], vec![entry(101, 3)], 2567692672),
            5,
        )
        .unwrap()
        .unwrap();
    assert_eq!(out.bids.levels, vec![Level::new(100 * ONE, 2 * ONE)]);
    assert_eq!(out.asks.levels, vec![Level::new(101 * ONE, 3 * ONE)]);
    assert_eq!(out.last_update_time, 5);
    assert_eq!(updater.last_checksum, 2567692672);
    assert_eq!(updater.updates_processed, 1);
}

#[test]
fn duplicate_snapshot_gives_nothing() {
    let mut updater = AevoBookUpdater::new(0);
    let mut book = OrderBook::empty(0);
    updater
        .update(
            &mut book,
            message("snapshot", vec![entry(100, 2)], vec![entry(101, 3)], 2567692672),
            5,
        )
        .unwrap();
    let again = updater
        .update(
            &mut book,
            message("snapshot", vec![entry(100, 2)], vec![entry(101, 3)], 2567692672),
            6,
        )
        .unwrap();
    assert!(again.is_none());
    assert_eq!(updater.updates_processed, 1);
    assert_eq!(updater.last_checksum, 2567692672);
    assert_eq!(book.last_update_time, 5);
    assert_eq!(book.bids.levels, vec![Level::new(100 * ONE, 2 * ONE)]);
}

#[test]
fn duplicate_check_reads_the_checksum_alone() {
    let mut updater = AevoBookUpdater::new(77);
    let mut book = OrderBook::empty(0);
    let out = updater
        .update(&mut book, message("snapshot", vec![entry(1, 1)], vec![], 77), 6)
        .unwrap();
    assert!(out.is_none());
    assert!(book.bids.levels.is_empty());
    assert_eq!(updater.updates_processed, 0);
}

#[test]
fn snapshot_with_a_wrong_checksum_is_an_invalid_sequence() {
    let mut updater = AevoBookUpdater::new(0);
    let mut book = OrderBook::empty(0);
    updater
        .update(
            &mut book,
            message("snapshot", vec![entry(100, 2)], vec![entry(101, 3)], 2567692672),
            5,
        )
        .unwrap();
    let result = updater.update(
        &mut book,
        message("snapshot", vec![entry(99, 5)], vec![entry(102, 4)], 12345),
        6,
    );
    match result {
        Err(DataError::InvalidSequence { expected, received }) => {
            assert_eq!(expected, 2567692672);
            assert_eq!(received, 12345);
        }
        other => panic!("expected an invalid sequence, got {:?}", other),
    }
    assert_eq!(updater.last_checksum, 2567692672);
    assert_eq!(updater.updates_processed, 1);
}

#[test]
fn snapshot_on_top_of_the_book_is_checked_against_the_result() {
    let mut updater = AevoBookUpdater::new(0);
    let mut book = OrderBook::empty(0);
    updater
        .update(
            &mut book,
            message("snapshot", vec![entry(100, 2)], vec![entry(101, 3)], 2567692672),
            5,
        )
        .unwrap();
    let out = updater
        .update(
            &mut book,
            message("snapshot", vec![entry(99, 5)], vec![entry(102, 4)], 2923597046),
            6,
        )
        .unwrap()
        .unwrap();
    assert_eq!(out.bids.levels.len(), 2);
    assert_eq!(out.asks.levels.len(), 2);
    assert_eq!(updater.last_checksum, 2923597046);
    assert_eq!(updater.updates_processed, 2);
}

#[test]
fn update_that_is_no_snapshot_is_applied_unchecked() {
    let mut updater = AevoBookUpdater::new(42);
    let mut book = OrderBook::empty(0);
    let out = updater
        .update(&mut book, message("update", vec![entry(100, 2)], vec![], 42), 3)
        .unwrap()
        .unwrap();
    assert_eq!(out.bids.levels, vec![Level::new(100 * ONE, 2 * ONE)]);
    assert_eq!(updater.last_checksum, 42);
    assert_eq!(updater.updates_processed, 1);
    let removed = updater
        .update(&mut book, message("update", vec![entry(100, 0)], vec![], 1), 4)
        .unwrap()
        .unwrap();
    assert!(removed.bids.levels.is_empty());
    assert_eq!(updater.updates_processed, 2);
}

#[test]
fn confirm_settles_by_the_two_checksums() {
    let book = OrderBook::new(1, vec![Level::new(ONE, ONE)], vec![]);
    let mut updater = AevoBookUpdater::new(10);
    let ok = updater.confirm(&book, 20, Some(20)).unwrap().unwrap();
    assert_eq!(ok.bids.levels, book.bids.levels);
    assert_eq!(updater.last_checksum, 20);
    assert_eq!(updater.updates_processed, 1);

    match updater.confirm(&book, 30, Some(31)) {
        Err(DataError::InvalidSequence { expected, received }) => {
            assert_eq!(expected, 20);
            assert_eq!(received, 30);
        }
        other => panic!("expected an invalid sequence, got {:?}", other),
    }
    assert_eq!(updater.last_checksum, 20);
    assert_eq!(updater.updates_processed, 1);

    assert!(updater.confirm(&book, 99, None).unwrap().is_some());
    assert_eq!(updater.last_checksum, 20);
    assert_eq!(updater.updates_processed, 2);
}

#[test]
fn message_names_its_subscription() {
    let id: Option<SubscriptionId> = message("snapshot", vec![], vec![], 0).id();
    assert_eq!(id, Some(SubscriptionId("orderbook|ETH-PERP".to_string())));
    assert!(message("snapshot", vec![], vec![], 0).data.snapshot());
    assert!(!message("update", vec![], vec![], 0).data.snapshot());
}

#[test]
fn updater_is_ready_until_its_count_is_full() {
    assert!(AevoBookUpdater::new(0).is_ready());
    let full = AevoBookUpdater { updates_processed: u64::MAX, last_checksum: 0 };
    assert!(!full.is_ready());
}
