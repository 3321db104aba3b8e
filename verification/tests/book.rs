use orderbook::book::Orderbook;
use orderbook::level::{PriceLevel, EPSILON, SCALE};
use orderbook::record::{
    classify, routed_to_book, Classification, Entry, MalformedRecord, OrderbookEntry,
    OrderbookMessage,
};
use orderbook::subscription::get_subscription;

fn level(price: i64, quantity: i64) -> PriceLevel {
    PriceLevel { price: price * SCALE, quantity: quantity * SCALE }
}

fn entries(pairs: &[(i64, i64)]) -> Vec<Entry> {
    pairs.iter().map(|(price, qty)| Entry { price: price * SCALE, qty: qty * SCALE }).collect()
}

fn record(bids: Option<&[(i64, i64)]>, asks: Option<&[(i64, i64)]>) -> OrderbookEntry {
    OrderbookEntry {
        symbol: Some(String::from("BTC/USD")),
        bids: bids.map(entries),
        asks: asks.map(entries),
    }
}

fn message(kind: &str, data: Option<Vec<OrderbookEntry>>) -> OrderbookMessage {
    OrderbookMessage {
        data,
        kind: Some(String::from(kind)),
        channel: Some(String::from("book")),
    }
}

fn snapshot(bids: &[(i64, i64)], asks: &[(i64, i64)]) -> OrderbookMessage {
    message("snapshot", Some(vec![record(Some(bids), Some(asks))]))
}

fn update(bids: Option<&[(i64, i64)]>, asks: Option<&[(i64, i64)]>) -> OrderbookMessage {
    message("update", Some(vec![record(bids, asks)]))
}

fn book_of(bids: &[(i64, i64)], asks: &[(i64, i64)]) -> Orderbook {
    let mut book = Orderbook::new();
    assert_eq!(book.evaluate(snapshot(bids, asks)), Ok(()));
    book
}

#[test]
fn new_book_has_no_top() {
    let book = Orderbook::new();
    assert_eq!(book.best_bid(), None);
    assert_eq!(book.best_ask(), None);
    assert_eq!(book.top_of_book(), None);
    assert_eq!(book.bids(), vec![]);
    assert_eq!(book.asks(), vec![]);
}

#[test]
fn snapshot_replaces_and_does_not_merge() {
    let mut book = book_of(&[(10, 1), (9, 2)], &[(11, 1)]);
    assert_eq!(book.bids(), vec![level(9, 2), level(10, 1)]);
    assert_eq!(book.evaluate(message("snapshot", Some(vec![record(Some(&[(10, 1)]), None)]))), Ok(()));
    assert_eq!(book.bids(), vec![level(10, 1)]);
    assert_eq!(book.asks(), vec![]);
}

#[test]
fn handle_snapshot_discards_levels_not_named() {
    let mut book = book_of(&[(10, 1), (9, 2)], &[(11, 1), (12, 4)]);
    assert_eq!(book.handle_snapshot(snapshot(&[(8, 7)], &[(13, 2)])), Ok(()));
    assert_eq!(book.bids(), vec![level(8, 7)]);
    assert_eq!(book.asks(), vec![level(13, 2)]);
}

#[test]
fn update_replaces_quantity_and_never_sums() {
    let mut book = book_of(&[(10, 1)], &[(11, 1)]);
    assert_eq!(book.evaluate(update(Some(&[(10, 3)]), Some(&[(11, 6)]))), Ok(()));
    assert_eq!(book.bids(), vec![level(10, 3)]);
    assert_eq!(book.asks(), vec![level(11, 6)]);
}

#[test]
fn update_with_zero_quantity_removes_the_level() {
    let mut book = book_of(&[(10, 5)], &[(10, 5)]);
    assert_eq!(book.evaluate(update(Some(&[(10, 0)]), Some(&[(10, 0)]))), Ok(()));
    assert_eq!(book.best_bid(), None);
    assert_eq!(book.best_ask(), None);
    assert_eq!(book.bids(), vec![]);
    assert_eq!(book.asks(), vec![]);
}

#[test]
fn removing_the_best_uncovers_the_next() {
    let mut book = book_of(&[(8, 3), (9, 1), (10, 5)], &[(11, 1), (12, 2)]);
    assert_eq!(book.evaluate(update(Some(&[(10, 0)]), Some(&[(11, 0)]))), Ok(()));
    assert_eq!(book.best_bid(), Some(level(9, 1)));
    assert_eq!(book.best_ask(), Some(level(12, 2)));
    assert_eq!(book.bids(), vec![level(8, 3), level(9, 1)]);
}

#[test]
fn update_below_tolerance_removes_the_level() {
    let mut book = book_of(&[(10, 5)], &[(11, 5)]);
    let low = OrderbookEntry {
        symbol: None,
        bids: Some(vec![Entry { price: 10 * SCALE, qty: EPSILON - 1 }]),
        asks: Some(vec![Entry { price: 11 * SCALE, qty: EPSILON }]),
    };
    assert_eq!(book.evaluate(message("update", Some(vec![low]))), Ok(()));
    assert_eq!(book.bids(), vec![]);
    assert_eq!(book.asks(), vec![PriceLevel { price: 11 * SCALE, quantity: EPSILON }]);
}

#[test]
fn best_bid_is_the_highest_bid() {
    let book = book_of(&[(9, 1), (10, 2), (8, 3)], &[]);
    assert_eq!(book.best_bid(), Some(level(10, 2)));
}

#[test]
fn best_ask_is_the_lowest_ask() {
    let book = book_of(&[], &[(11, 1), (9, 2), (12, 3)]);
    assert_eq!(book.best_ask(), Some(level(9, 2)));
}

#[test]
fn empty_bid_side_reports_only_the_ask() {
    let book = book_of(&[], &[(11, 1), (12, 3)]);
    assert_eq!(book.best_bid(), None);
    assert_eq!(book.best_ask(), Some(level(11, 1)));
    assert_eq!(book.top_of_book(), None);
}

#[test]
fn empty_ask_side_reports_only_the_bid() {
    let book = book_of(&[(9, 1)], &[]);
    assert_eq!(book.best_bid(), Some(level(9, 1)));
    assert_eq!(book.best_ask(), None);
    assert_eq!(book.top_of_book(), None);
}

#[test]
fn top_of_book_pairs_best_bid_and_best_ask() {
    let book = book_of(&[(9, 1), (10, 2), (8, 3)], &[(11, 1), (13, 2), (12, 3)]);
    assert_eq!(book.top_of_book(), Some((level(10, 2), level(11, 1))));
}

#[test]
fn reading_the_top_does_not_change_the_book() {
    let book = book_of(&[(9, 1), (10, 2)], &[(11, 1), (12, 3)]);
    let bids = book.bids();
    let asks = book.asks();
    book.best_bid();
    book.best_ask();
    book.top_of_book();
    assert_eq!(book.bids(), bids);
    assert_eq!(book.asks(), asks);
}

#[test]
fn same_update_twice_equals_once() {
    let mut once = book_of(&[(9, 1)], &[(11, 1)]);
    let mut twice = book_of(&[(9, 1)], &[(11, 1)]);
    let change = update(Some(&[(10, 2)]), Some(&[(11, 4)]));
    assert_eq!(once.evaluate(change.clone()), Ok(()));
    assert_eq!(twice.evaluate(change.clone()), Ok(()));
    assert_eq!(twice.evaluate(change), Ok(()));
    assert_eq!(once.bids(), twice.bids());
    assert_eq!(once.asks(), twice.asks());
    assert_eq!(twice.bids(), vec![level(9, 1), level(10, 2)]);
    assert_eq!(twice.asks(), vec![level(11, 4)]);
}

#[test]
fn heartbeat_changes_nothing() {
    let mut book = book_of(&[(9, 1), (10, 2)], &[(11, 1)]);
    let beat = message("heartbeat", Some(vec![record(Some(&[(9, 0), (7, 7)]), Some(&[(11, 0)]))]));
    assert_eq!(book.evaluate(beat), Ok(()));
    assert_eq!(book.bids(), vec![level(9, 1), level(10, 2)]);
    assert_eq!(book.asks(), vec![level(11, 1)]);
}

#[test]
fn unclassified_record_changes_nothing() {
    let mut book = book_of(&[(9, 1)], &[(11, 1)]);
    let bare = OrderbookMessage { data: None, kind: None, channel: Some(String::from("book")) };
    assert_eq!(book.evaluate(bare), Ok(()));
    assert_eq!(book.evaluate(message("heartbeat", None)), Ok(()));
    assert_eq!(book.bids(), vec![level(9, 1)]);
    assert_eq!(book.asks(), vec![level(11, 1)]);
}

#[test]
fn update_without_data_is_malformed() {
    let mut book = book_of(&[(9, 1)], &[(11, 1)]);
    assert_eq!(book.evaluate(message("update", None)), Err(MalformedRecord));
    assert_eq!(book.handle_update(message("update", None)), Err(MalformedRecord));
    assert_eq!(book.bids(), vec![level(9, 1)]);
    assert_eq!(book.asks(), vec![level(11, 1)]);
}

#[test]
fn snapshot_without_data_is_malformed_and_keeps_the_book() {
    let mut book = book_of(&[(9, 1)], &[(11, 1)]);
    assert_eq!(book.evaluate(message("snapshot", None)), Err(MalformedRecord));
    assert_eq!(book.handle_snapshot(message("snapshot", None)), Err(MalformedRecord));
    assert_eq!(book.bids(), vec![level(9, 1)]);
    assert_eq!(book.asks(), vec![level(11, 1)]);
}

#[test]
fn record_with_neither_side_changes_nothing() {
    let mut book = book_of(&[(9, 1)], &[(11, 1)]);
    assert_eq!(book.evaluate(update(None, None)), Ok(()));
    assert_eq!(book.evaluate(message("update", Some(vec![]))), Ok(()));
    assert_eq!(book.bids(), vec![level(9, 1)]);
    assert_eq!(book.asks(), vec![level(11, 1)]);
}

#[test]
fn absent_side_is_left_alone() {
    let mut book = book_of(&[(9, 1)], &[(11, 1)]);
    assert_eq!(book.evaluate(update(Some(&[(9, 0)]), None)), Ok(()));
    assert_eq!(book.bids(), vec![]);
    assert_eq!(book.asks(), vec![level(11, 1)]);
    assert_eq!(book.evaluate(update(None, Some(&[(12, 5)]))), Ok(()));
    assert_eq!(book.asks(), vec![level(11, 1), level(12, 5)]);
}

#[test]
fn pairs_apply_in_order_within_a_record() {
    let mut book = Orderbook::new();
    let change = update(Some(&[(10, 1), (10, 0), (10, 4), (9, 2), (9, 0)]), Some(&[(11, 0), (11, 3)]));
    assert_eq!(book.evaluate(change), Ok(()));
    assert_eq!(book.bids(), vec![level(10, 4)]);
    assert_eq!(book.asks(), vec![level(11, 3)]);
}

#[test]
fn records_apply_in_order_within_a_message() {
    let mut book = Orderbook::new();
    let data = vec![
        record(Some(&[(10, 1)]), Some(&[(11, 1)])),
        record(Some(&[(10, 2), (9, 1)]), None),
        record(None, Some(&[(11, 0), (12, 6)])),
    ];
    assert_eq!(book.evaluate(message("update", Some(data))), Ok(()));
    assert_eq!(book.bids(), vec![level(9, 1), level(10, 2)]);
    assert_eq!(book.asks(), vec![level(12, 6)]);
}

#[test]
fn sides_are_kept_apart() {
    let mut book = book_of(&[(10, 1)], &[(10, 2)]);
    assert_eq!(book.evaluate(update(Some(&[(10, 0)]), None)), Ok(()));
    assert_eq!(book.best_bid(), None);
    assert_eq!(book.best_ask(), Some(level(10, 2)));
}

#[test]
fn prices_stay_unique_over_many_records() {
    let mut book = Orderbook::new();
    for round in 0..40_i64 {
        let price = 100 + (round * 7) % 11;
        let quantity = (round * 5) % 4;
        assert_eq!(
            book.evaluate(update(Some(&[(price, quantity)]), Some(&[(price + 20, quantity + 1)]))),
            Ok(())
        );
        for side in [book.bids(), book.asks()] {
            for pair in side.windows(2) {
                assert!(pair[0].price < pair[1].price);
            }
            for held in side.iter() {
                assert!(held.quantity >= EPSILON);
            }
        }
    }
    assert_eq!(book.asks().len(), 11);
}

#[test]
fn ingest_applies_records_of_the_book_channel() {
    let mut book = Orderbook::new();
    assert_eq!(book.ingest(snapshot(&[(9, 1)], &[(11, 1)])), Ok(true));
    assert_eq!(book.ingest(update(Some(&[(10, 2)]), None)), Ok(true));
    assert_eq!(book.top_of_book(), Some((level(10, 2), level(11, 1))));
    assert_eq!(book.ingest(message("heartbeat", None)), Ok(true));
    assert_eq!(book.top_of_book(), Some((level(10, 2), level(11, 1))));
}

#[test]
fn ingest_ignores_other_channels() {
    let mut book = book_of(&[(9, 1)], &[(11, 1)]);
    let mut other = update(Some(&[(9, 0)]), Some(&[(11, 0)]));
    other.channel = Some(String::from("ticker"));
    assert_eq!(book.ingest(other), Ok(false));
    let mut unrouted = message("update", None);
    unrouted.channel = None;
    assert_eq!(book.ingest(unrouted), Ok(false));
    assert_eq!(book.bids(), vec![level(9, 1)]);
    assert_eq!(book.asks(), vec![level(11, 1)]);
}

#[test]
fn ingest_reports_malformed_records() {
    let mut book = book_of(&[(9, 1)], &[(11, 1)]);
    assert_eq!(book.ingest(message("update", None)), Err(MalformedRecord));
    assert_eq!(book.ingest(message("snapshot", None)), Err(MalformedRecord));
    assert_eq!(book.bids(), vec![level(9, 1)]);
    assert_eq!(book.asks(), vec![level(11, 1)]);
}

#[test]
fn classify_reads_the_declared_type() {
    assert_eq!(classify(&Some(String::from("snapshot"))), Classification::Snapshot);
    assert_eq!(classify(&Some(String::from("update"))), Classification::Update);
    assert_eq!(classify(&Some(String::from("heartbeat"))), Classification::Other);
    assert_eq!(classify(&Some(String::from("Snapshot"))), Classification::Other);
    assert_eq!(classify(&Some(String::from("updates"))), Classification::Other);
    assert_eq!(classify(&Some(String::new())), Classification::Other);
    assert_eq!(classify(&None), Classification::Other);
}

#[test]
fn routed_to_book_reads_the_channel() {
    assert!(routed_to_book(&Some(String::from("book"))));
    assert!(!routed_to_book(&Some(String::from("books"))));
    assert!(!routed_to_book(&Some(String::from("ticker"))));
    assert!(!routed_to_book(&Some(String::new())));
    assert!(!routed_to_book(&None));
}

#[test]
fn subscription_asks_for_the_book() {
    let subscription = get_subscription();
    assert_eq!(subscription.method, "subscribe");
    assert_eq!(subscription.params.channel, "book");
    assert_eq!(subscription.params.symbol, vec![String::from("BTC/USD")]);
    assert_eq!(subscription.params.depth, 25);
}
