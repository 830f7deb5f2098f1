use trading_eng::engine::{
    passive_order, taker_order, Order, anchor_fits, EngineState, MAX_CEIL_CENTS, Side, Submission, DEFAULT_ANCHOR_CENTS, MAX_AGGRESSIVE_QTY, MAX_PASSIVE_QTY,
    MAX_REACH_TICKS, SEED_TICKS,
};

#[test]
fn new_state_is_sim_at_one_hundred() {
    let s = EngineState::new();
    assert_eq!(s.symbol, "SIM");
    assert_eq!(s.anchor_cents, DEFAULT_ANCHOR_CENTS);
    assert_eq!(s.mid_cents, 10_000);
    assert_eq!(s.floor_cents, 8_000);
    assert_eq!(s.ceil_cents, 12_000);
    assert_eq!(s.next_id, 1);
    assert_eq!(s.last_trade_cents, None);
    assert_eq!(s.last_trade_qty, 0);
    assert_eq!(s.volume, 0);
    assert_eq!(s.trades, 0);
    assert_eq!(SEED_TICKS, 8);
}

#[test]
fn cheap_anchor_keeps_minimum_band_and_floor() {
    let s = EngineState::anchored("penny", 100);
    assert_eq!(s.symbol, "PENNY");
    assert_eq!(s.anchor_cents, 100);
    assert_eq!(s.floor_cents, 1);
    assert_eq!(s.ceil_cents, 600);
}

#[test]
fn expensive_anchor_scales_band() {
    let s = EngineState::anchored("brk-a", 70_000_000);
    assert_eq!(s.symbol, "BRK-A");
    assert_eq!(s.floor_cents, 56_000_000);
    assert_eq!(s.ceil_cents, 84_000_000);
}

#[test]
fn nonpositive_anchor_becomes_one_cent() {
    let s = EngineState::anchored("x", -5);
    assert_eq!(s.anchor_cents, 1);
    assert_eq!(s.mid_cents, 1);
    assert_eq!(s.floor_cents, 1);
    assert_eq!(s.ceil_cents, 501);
}

#[test]
fn reset_keeps_symbol_and_anchor_and_clears_tape() {
    let mut s = EngineState::anchored("msft", 41_234);
    s.mid_cents = 40_000;
    s.next_id = 77;
    s.last_trade_cents = Some(40_001);
    s.last_trade_qty = 9;
    s.volume = 500;
    s.trades = 12;
    let r = s.reset();
    assert_eq!(r.symbol, "MSFT");
    assert_eq!(r.anchor_cents, 41_234);
    assert_eq!(r.mid_cents, 41_234);
    assert_eq!(r.floor_cents, s.floor_cents);
    assert_eq!(r.ceil_cents, s.ceil_cents);
    assert_eq!(r.next_id, 1);
    assert_eq!(r.last_trade_cents, None);
    assert_eq!(r.volume, 0);
    assert_eq!(r.trades, 0);
}

#[test]
fn reanchor_refuses_nonpositive_price() {
    match EngineState::reanchor("tsla", 0) {
        Err(e) => assert_eq!(e, "no valid price for tsla"),
        Ok(_) => panic!("expected an error"),
    }
    match EngineState::reanchor("tsla", 25_012) {
        Ok(s) => {
            assert_eq!(s.symbol, "TSLA");
            assert_eq!(s.anchor_cents, 25_012);
            assert_eq!(s.floor_cents, 20_010);
            assert_eq!(s.ceil_cents, 30_014);
        }
        Err(e) => panic!("unexpected error {e}"),
    }
}

#[test]
fn ids_are_handed_out_in_order() {
    let mut s = EngineState::new();
    assert_eq!(s.alloc_id(), 1);
    assert_eq!(s.alloc_id(), 2);
    assert_eq!(s.alloc_id(), 3);
    assert_eq!(s.next_id, 4);
}

#[test]
fn ticks_keep_mid_in_band_and_makers_on_their_side() {
    let mut s = EngineState::anchored("sim", 600);
    for _ in 0..2000 {
        let before = s.mid_cents;
        let plan = s.plan_tick();
        assert!(plan.drift_ticks >= -2 && plan.drift_ticks <= 2);
        let expected = (before + plan.drift_ticks).clamp(s.floor_cents, s.ceil_cents);
        assert_eq!(s.mid_cents, expected);
        assert!(s.floor_cents <= s.mid_cents && s.mid_cents <= s.ceil_cents);
        let mid = s.mid_cents;
        assert!(!plan.bids.is_empty() && plan.bids.len() <= 4);
        assert!(!plan.asks.is_empty() && plan.asks.len() <= 4);
        assert!(plan.takers.len() <= 2);
        for o in &plan.bids {
            assert_eq!(o.side, Side::Buy);
            assert!(o.price_cents < mid && o.price_cents >= mid - 15);
            assert!(o.qty >= 1 && o.qty as i64 <= MAX_PASSIVE_QTY);
        }
        for o in &plan.asks {
            assert_eq!(o.side, Side::Sell);
            assert!(o.price_cents > mid && o.price_cents <= mid + 15);
            assert!(o.qty >= 1 && o.qty as i64 <= MAX_PASSIVE_QTY);
        }
        for o in &plan.takers {
            match o.side {
                Side::Buy => assert!(o.price_cents >= mid && o.price_cents <= mid + MAX_REACH_TICKS),
                Side::Sell => assert!(o.price_cents <= mid && o.price_cents >= mid - MAX_REACH_TICKS),
            }
            assert!(o.qty >= 1 && o.qty as i64 <= MAX_AGGRESSIVE_QTY);
        }
    }
    assert_eq!(s.anchor_cents, 600);
    assert_eq!(s.next_id, 1);
}

#[test]
fn ticks_at_the_floor_never_go_below_one_cent() {
    let mut s = EngineState::anchored("sim", 1);
    for _ in 0..500 {
        let _ = s.plan_tick();
        assert!(s.mid_cents >= 1);
    }
}

#[test]
fn zero_quantity_order_is_dropped() {
    let mut s = EngineState::new();
    assert_eq!(s.begin_submit(Side::Buy, 9_990, 0), None);
    assert_eq!(s.begin_submit(Side::Sell, 9_990, -4), None);
    assert_eq!(s.next_id, 1);
}

#[test]
fn submission_gets_next_id() {
    let mut s = EngineState::new();
    let sub = s.begin_submit(Side::Sell, 10_005, 30);
    assert_eq!(sub, Some(Submission { id: 1, side: Side::Sell, price_cents: 10_005, qty: 30 }));
    assert_eq!(s.next_id, 2);
}

#[test]
fn unmatched_order_rests_whole() {
    let mut s = EngineState::new();
    let sub = s.begin_submit(Side::Buy, 9_995, 40).unwrap();
    let rest = s.finish_submit(sub, None, 40);
    assert_eq!(rest, Some(sub));
    assert_eq!(s.trades, 0);
    assert_eq!(s.volume, 0);
    assert_eq!(s.last_trade_cents, None);
}

#[test]
fn partial_fill_prints_at_maker_price_and_rests_remainder() {
    let mut s = EngineState::new();
    let sub = s.begin_submit(Side::Buy, 10_008, 50).unwrap();
    let rest = s.finish_submit(sub, Some(10_002), 20);
    assert_eq!(rest, Some(Submission { id: 1, side: Side::Buy, price_cents: 10_008, qty: 20 }));
    assert_eq!(s.last_trade_cents, Some(10_002));
    assert_eq!(s.last_trade_qty, 30);
    assert_eq!(s.volume, 30);
    assert_eq!(s.trades, 1);
}

#[test]
fn full_fill_without_maker_prints_at_own_price() {
    let mut s = EngineState::new();
    s.volume = 100;
    s.trades = 4;
    let sub = s.begin_submit(Side::Sell, 9_993, 12).unwrap();
    let rest = s.finish_submit(sub, None, 0);
    assert_eq!(rest, None);
    assert_eq!(s.last_trade_cents, Some(9_993));
    assert_eq!(s.last_trade_qty, 12);
    assert_eq!(s.volume, 112);
    assert_eq!(s.trades, 5);
}

#[test]
fn anchor_fits_up_to_the_machine_limit() {
    assert!(anchor_fits(10_000));
    assert!(anchor_fits(-3));
    assert!(anchor_fits(7_686_143_364_045_646_494));
    assert!(!anchor_fits(7_686_143_364_045_646_495));
    assert!(!anchor_fits(i64::MAX));
    let s = EngineState::anchored("big", 7_686_143_364_045_646_494);
    assert!(s.ceil_cents <= MAX_CEIL_CENTS);
}

#[test]
fn passive_order_rests_on_its_side_of_mid() {
    assert_eq!(
        passive_order(Side::Buy, 10_000, 3, 40),
        Order { side: Side::Buy, price_cents: 9_997, qty: 40 }
    );
    assert_eq!(
        passive_order(Side::Sell, 10_000, 15, 1),
        Order { side: Side::Sell, price_cents: 10_015, qty: 1 }
    );
}

#[test]
fn taker_order_reaches_across_mid() {
    assert_eq!(taker_order(500, 8, 80, true), Order { side: Side::Buy, price_cents: 508, qty: 80 });
    assert_eq!(taker_order(500, 2, 7, false), Order { side: Side::Sell, price_cents: 498, qty: 7 });
    assert_eq!(taker_order(500, 0, 1, false), Order { side: Side::Sell, price_cents: 500, qty: 1 });
}

#[test]
fn reset_keeps_upper_case_symbol() {
    let s = EngineState::anchored("nvda", 12_000);
    assert_eq!(s.symbol, "NVDA");
    assert_eq!(s.reset().symbol, "NVDA");
}
