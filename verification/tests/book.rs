use trading_eng::depth::{best_cents, side_ids, LevelDto, PriceLevel};
use trading_eng::engine::{EngineState, MAX_ORDERS_PER_SIDE};
use trading_eng::text::cents_string;
use trading_eng::trim::{cancel_at, trim_side};

fn level(price_cents: i64, total_qty: i32, order_ids: Vec<u64>) -> PriceLevel {
    PriceLevel { price_cents, total_qty, order_ids }
}

#[test]
fn cents_render_with_two_decimals() {
    assert_eq!(cents_string(10_000), "100.00");
    assert_eq!(cents_string(5), "0.05");
    assert_eq!(cents_string(0), "0.00");
    assert_eq!(cents_string(-5), "-0.05");
    assert_eq!(cents_string(123_456), "1234.56");
    assert_eq!(cents_string(-120), "-1.20");
}

#[test]
fn best_price_is_first_level() {
    assert_eq!(best_cents(&vec![]), None);
    let levels = vec![level(10_002, 5, vec![3]), level(10_001, 7, vec![4])];
    assert_eq!(best_cents(&levels), Some(10_002));
}

#[test]
fn side_ids_lists_every_order_level_by_level() {
    let levels = vec![
        level(10_002, 5, vec![3, 9]),
        level(10_001, 7, vec![]),
        level(10_000, 1, vec![4, 1, 8]),
    ];
    assert_eq!(side_ids(&levels), vec![3, 9, 4, 1, 8]);
    assert_eq!(side_ids(&vec![]), Vec::<u64>::new());
}

#[test]
fn level_row_shows_price_qty_and_order_count() {
    let row = LevelDto::from_level(&level(9_950, 42, vec![1, 2, 3]));
    assert_eq!(row.price, "99.50");
    assert_eq!(row.qty, 42);
    assert_eq!(row.orders, 3);
}

#[test]
fn snapshot_of_two_sided_book() {
    let mut s = EngineState::anchored("ibm", 10_000);
    s.last_trade_cents = Some(10_003);
    s.last_trade_qty = 6;
    s.volume = 60;
    s.trades = 3;
    let bids = vec![level(10_000, 5, vec![1, 2]), level(9_999, 7, vec![5])];
    let asks = vec![level(10_003, 3, vec![4]), level(10_010, 2, vec![6])];
    let snap = s.snapshot(&bids, &asks, 1);
    assert_eq!(snap.symbol, "IBM");
    assert_eq!(snap.last_price, "100.00");
    assert_eq!(snap.bids.len(), 1);
    assert_eq!(snap.asks.len(), 1);
    assert_eq!(snap.bids[0].price, "100.00");
    assert_eq!(snap.bids[0].orders, 2);
    assert_eq!(snap.asks[0].price, "100.03");
    assert_eq!(snap.best_bid.as_deref(), Some("100.00"));
    assert_eq!(snap.best_ask.as_deref(), Some("100.03"));
    assert_eq!(snap.spread.as_deref(), Some("0.03"));
    assert_eq!(snap.mid.as_deref(), Some("100.0150"));
    assert_eq!(snap.max_qty, 5);
    assert_eq!(snap.last_trade.as_deref(), Some("100.03"));
    assert_eq!(snap.last_trade_qty, 6);
    assert_eq!(snap.volume, 60);
    assert_eq!(snap.trades, 3);

    let deep = s.snapshot(&bids, &asks, 20);
    assert_eq!(deep.bids.len(), 2);
    assert_eq!(deep.asks.len(), 2);
    assert_eq!(deep.max_qty, 7);
}

#[test]
fn snapshot_mid_of_even_sum() {
    let s = EngineState::new();
    let bids = vec![level(9_999, 1, vec![1])];
    let asks = vec![level(10_001, 1, vec![2])];
    let snap = s.snapshot(&bids, &asks, 5);
    assert_eq!(snap.mid.as_deref(), Some("100.00"));
    assert_eq!(snap.spread.as_deref(), Some("0.02"));
}

#[test]
fn snapshot_of_one_sided_book_has_no_spread() {
    let s = EngineState::new();
    let bids = vec![level(9_990, 4, vec![1])];
    let snap = s.snapshot(&bids, &vec![], 20);
    assert_eq!(snap.best_bid.as_deref(), Some("99.90"));
    assert_eq!(snap.best_ask, None);
    assert_eq!(snap.spread, None);
    assert_eq!(snap.mid, None);
    assert_eq!(snap.max_qty, 4);
    assert_eq!(snap.last_trade, None);
}

#[test]
fn snapshot_of_empty_book() {
    let s = EngineState::new();
    let snap = s.snapshot(&vec![], &vec![], 20);
    assert!(snap.bids.is_empty() && snap.asks.is_empty());
    assert_eq!(snap.max_qty, 0);
    assert_eq!(snap.best_bid, None);
    let zero_depth = s.snapshot(&vec![level(1, 9, vec![1])], &vec![], 0);
    assert!(zero_depth.bids.is_empty());
    assert_eq!(zero_depth.max_qty, 0);
    assert_eq!(zero_depth.best_bid.as_deref(), Some("0.01"));
}

#[test]
fn trim_cancels_down_to_cap() {
    let ids: Vec<u64> = (1..=130).collect();
    let t = trim_side(ids.clone());
    assert_eq!(t.kept.len(), MAX_ORDERS_PER_SIDE);
    assert_eq!(t.cancelled.len(), 10);
    let mut all: Vec<u64> = t.kept.iter().chain(t.cancelled.iter()).copied().collect();
    all.sort();
    assert_eq!(all, ids);
}

#[test]
fn trim_leaves_small_side_alone() {
    let ids: Vec<u64> = vec![5, 3, 8];
    let t = trim_side(ids.clone());
    assert_eq!(t.kept, ids);
    assert!(t.cancelled.is_empty());
    let exact: Vec<u64> = (0..120).collect();
    let t = trim_side(exact.clone());
    assert_eq!(t.kept, exact);
    assert!(t.cancelled.is_empty());
}

#[test]
fn cancel_at_moves_last_into_place() {
    let mut ids: Vec<u64> = vec![10, 20, 30, 40];
    assert_eq!(cancel_at(&mut ids, 1), 20);
    assert_eq!(ids, vec![10, 40, 30]);
    assert_eq!(cancel_at(&mut ids, 2), 30);
    assert_eq!(ids, vec![10, 40]);
}
