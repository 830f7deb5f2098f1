//! Properties of the simulator that span its operations.

use vstd::prelude::*;
use crate::depth::{ids_of, max_or_zero, mid_text, seq_max, spread_text, PriceLevel};
use crate::engine::{
    EngineState, Order, Side, Submission, TickPlan, anchor_of, ascii_upper_fixes, band_of,
    ceil_of, drifted_mid, fill_recorded, floor_of, is_upper_ascii, plan_fits, rest_of, submission_begun,
    MAX_AGGRESSIVE_ORDERS, MAX_AGGRESSIVE_QTY, MAX_PASSIVE_ORDERS, MAX_PASSIVE_QTY,
    MAX_DRIFT_TICKS, MIN_BAND_CENTS, TICK_CENTS,
};
use crate::text::{abs, ascii_upper, cents_text, digit_char, is_ascii_text, nat_text, padded_text, pow10};

verus! {

/// Within one tick every passive bid rests strictly below the mid and every
/// passive ask strictly above it, so the passive orders of a tick never cross
/// each other.
pub proof fn lemma_makers_straddle_mid(plan: TickPlan, mid: int)
    requires
        plan_fits(plan, mid),
    ensures
        forall|i: int| 0 <= i < plan.bids@.len() ==> #[trigger] plan.bids@[i].price_cents < mid,
        forall|j: int| 0 <= j < plan.asks@.len() ==> #[trigger] plan.asks@[j].price_cents > mid,
        forall|i: int, j: int|
            0 <= i < plan.bids@.len() && 0 <= j < plan.asks@.len()
                ==> #[trigger] plan.bids@[i].price_cents < #[trigger] plan.asks@[j].price_cents,
{
    assert forall|i: int, j: int|
        0 <= i < plan.bids@.len() && 0 <= j < plan.asks@.len()
            implies #[trigger] plan.bids@[i].price_cents < #[trigger] plan.asks@[j].price_cents by {
        assert(plan.bids@[i].price_cents < mid);
        assert(plan.asks@[j].price_cents > mid);
    }
}

/// The band around an anchor is never narrower than 5.00 on the upper side,
/// never reaches below one cent, and holds the anchor; anchoring again at the
/// anchor it gave keeps the same band.
pub proof fn lemma_band_holds_anchor(requested: int)
    ensures
        anchor_of(requested) >= 1,
        band_of(requested) >= MIN_BAND_CENTS,
        1 <= floor_of(requested) <= anchor_of(requested) <= ceil_of(requested),
        ceil_of(requested) - anchor_of(requested) >= MIN_BAND_CENTS,
        anchor_of(anchor_of(requested)) == anchor_of(requested),
        floor_of(anchor_of(requested)) == floor_of(requested),
        ceil_of(anchor_of(requested)) == ceil_of(requested),
{
}

/// Folding the matching engine's answer into the state never lowers the
/// traded volume or the count of prints, and a print is counted exactly when
/// the volume grows.
pub proof fn lemma_tape_only_grows(
    before: EngineState,
    after: EngineState,
    sub: Submission,
    maker_cents: Option<i64>,
    unfilled: i32,
)
    requires
        fill_recorded(before, after, sub, maker_cents, unfilled),
    ensures
        after.volume >= before.volume,
        after.trades >= before.trades,
        after.trades == before.trades + 1 <==> after.volume > before.volume,
        after.trades > before.trades ==> after.last_trade_qty > 0,
{
}

/// The largest quantity shown is at least every quantity shown and is one of
/// them; it is 0 exactly when nothing is shown.
pub proof fn lemma_max_qty_is_largest(s: Seq<i32>)
    ensures
        forall|i: int| 0 <= i < s.len() ==> s[i] <= max_or_zero(s),
        s.len() > 0 ==> exists|i: int| 0 <= i < s.len() && s[i] == max_or_zero(s),
        s.len() == 0 ==> max_or_zero(s) == 0,
    decreases s.len(),
{
    if s.len() > 0 {
        let p = s.drop_last();
        lemma_max_qty_is_largest(p);
        assert forall|i: int| 0 <= i < s.len() implies s[i] <= max_or_zero(s) by {
            if i < s.len() - 1 {
                assert(s[i] == p[i]);
            }
        }
        if p.len() > 0 && seq_max(s) != Some(s.last()) {
            let k = choose|k: int| 0 <= k < p.len() && p[k] == max_or_zero(p);
            assert(s[k] == max_or_zero(s));
        } else {
            assert(s[s.len() - 1] == max_or_zero(s));
        }
    }
}

/// Trimming cancels only ids that rest on the side, and never more often than
/// they rest there; the ids kept rest there too.
pub proof fn lemma_trim_cancels_only_resting(ids: Seq<u64>, kept: Seq<u64>, cancelled: Seq<u64>)
    requires
        kept.to_multiset().add(cancelled.to_multiset()) =~= ids.to_multiset(),
    ensures
        forall|x: u64| cancelled.to_multiset().count(x) <= ids.to_multiset().count(x),
        forall|i: int| 0 <= i < cancelled.len() ==> ids.contains(#[trigger] cancelled[i]),
        forall|i: int| 0 <= i < kept.len() ==> ids.contains(#[trigger] kept[i]),
{
    broadcast use vstd::seq_lib::group_to_multiset_ensures;
    broadcast use vstd::multiset::group_multiset_axioms;

    assert forall|i: int| 0 <= i < cancelled.len() implies ids.contains(#[trigger] cancelled[i]) by {
        assert(cancelled.contains(cancelled[i]));
        assert(cancelled.to_multiset().count(cancelled[i]) > 0);
        assert(ids.to_multiset().count(cancelled[i]) > 0);
    }
    assert forall|i: int| 0 <= i < kept.len() implies ids.contains(#[trigger] kept[i]) by {
        assert(kept.contains(kept[i]));
        assert(kept.to_multiset().count(kept[i]) > 0);
        assert(ids.to_multiset().count(kept[i]) > 0);
    }
}

/// A fresh state has a consistent trade tape.
pub proof fn lemma_fresh_tape_ok(s: EngineState, symbol: Seq<char>, requested: int)
    requires
        s.is_fresh(symbol, requested),
    ensures
        s.tape_ok(),
{
}

/// Handing an order in keeps the trade tape consistent.
pub proof fn lemma_begin_keeps_tape(
    before: EngineState,
    after: EngineState,
    side: Side,
    price_cents: i64,
    qty: i32,
    sub: Option<Submission>,
)
    requires
        before.tape_ok(),
        submission_begun(before, after, side, price_cents, qty, sub),
    ensures
        after.tape_ok(),
{
}

/// Folding in the matching engine's answer keeps the trade tape consistent,
/// whenever the engine leaves between none and all of the order unfilled.
pub proof fn lemma_fill_keeps_tape(
    before: EngineState,
    after: EngineState,
    sub: Submission,
    maker_cents: Option<i64>,
    unfilled: i32,
)
    requires
        before.tape_ok(),
        fill_recorded(before, after, sub, maker_cents, unfilled),
        0 <= unfilled <= sub.qty,
    ensures
        after.tape_ok(),
{
}

/// Whatever rests of a submitted order carries the id handed out for it: one
/// that no resting order had (all of those are below the id counter), below
/// the new id counter; it rests on the order's side, at its price on the cent
/// grid, for a positive quantity no larger than the order's.
pub proof fn lemma_rest_gets_fresh_id(
    resting: Set<u64>,
    before: EngineState,
    handed_in: EngineState,
    after: EngineState,
    side: Side,
    price_cents: i64,
    qty: i32,
    sub: Submission,
    maker_cents: Option<i64>,
    unfilled: i32,
)
    requires
        forall|x: u64| resting.contains(x) ==> x < before.next_id,
        submission_begun(before, handed_in, side, price_cents, qty, Some(sub)),
        fill_recorded(handed_in, after, sub, maker_cents, unfilled),
        unfilled <= qty,
    ensures
        sub.id == before.next_id,
        !resting.contains(sub.id),
        forall|x: u64| resting.insert(sub.id).contains(x) ==> x < after.next_id,
        rest_of(sub, unfilled) matches Some(r) ==> {
            &&& r.id == sub.id
            &&& r.side == side
            &&& r.price_cents == price_cents
            &&& 0 < r.qty <= qty
        },
{
}

/// The states of a tick after planning: `states[i]` is the state before the
/// `i`-th order of `orders` is handed in, `handed[i]` the state once it was,
/// and `states[i + 1]` the state once the matching engine's answer
/// (`makers[i]`, `unfilled[i]`, between none and all of the order) was folded in.
pub open spec fn tick_submitted(
    orders: Seq<Order>,
    states: Seq<EngineState>,
    handed: Seq<EngineState>,
    subs: Seq<Submission>,
    makers: Seq<Option<i64>>,
    unfilled: Seq<i32>,
) -> bool {
    &&& states.len() == orders.len() + 1
    &&& handed.len() == orders.len()
    &&& subs.len() == orders.len()
    &&& makers.len() == orders.len()
    &&& unfilled.len() == orders.len()
    &&& forall|i: int|
        0 <= i < orders.len() ==> {
            &&& submission_begun(
                #[trigger] states[i],
                handed[i],
                orders[i].side,
                orders[i].price_cents,
                orders[i].qty,
                Some(subs[i]),
            )
            &&& fill_recorded(handed[i], states[i + 1], subs[i], makers[i], unfilled[i])
            &&& 0 <= unfilled[i] <= subs[i].qty
        }
}

/// Total quantity of `orders`.
pub open spec fn qty_sum(orders: Seq<Order>) -> int
    decreases orders.len(),
{
    if orders.len() == 0 {
        0
    } else {
        qty_sum(orders.drop_last()) + orders.last().qty
    }
}

proof fn lemma_qty_sum_concat(a: Seq<Order>, b: Seq<Order>)
    ensures
        qty_sum(a + b) == qty_sum(a) + qty_sum(b),
    decreases b.len(),
{
    if b.len() > 0 {
        assert((a + b).drop_last() =~= a + b.drop_last());
        lemma_qty_sum_concat(a, b.drop_last());
    } else {
        assert(a + b =~= a);
    }
}

proof fn lemma_qty_sum_bound(s: Seq<Order>, most: int)
    requires
        forall|i: int| 0 <= i < s.len() ==> (#[trigger] s[i]).qty <= most,
    ensures
        qty_sum(s) <= s.len() * most,
    decreases s.len(),
{
    if s.len() > 0 {
        lemma_qty_sum_bound(s.drop_last(), most);
        assert(s.last() == s[s.len() - 1]);
        let n = s.len() as int;
        assert((n - 1) * most + most == n * most) by (nonlinear_arith);
    }
}

proof fn lemma_tick_prefix(
    orders: Seq<Order>,
    states: Seq<EngineState>,
    handed: Seq<EngineState>,
    subs: Seq<Submission>,
    makers: Seq<Option<i64>>,
    unfilled: Seq<i32>,
    k: int,
)
    requires
        tick_submitted(orders, states, handed, subs, makers, unfilled),
        0 <= k <= orders.len(),
    ensures
        states[k].next_id == states[0].next_id + k,
        states[0].trades <= states[k].trades <= states[0].trades + k,
        states[0].volume <= states[k].volume <= states[0].volume + qty_sum(orders.take(k)),
    decreases k,
{
    if k > 0 {
        lemma_tick_prefix(orders, states, handed, subs, makers, unfilled, k - 1);
        let i = k - 1;
        assert(submission_begun(
            states[i],
            handed[i],
            orders[i].side,
            orders[i].price_cents,
            orders[i].qty,
            Some(subs[i]),
        ));
        assert(orders.take(k).drop_last() =~= orders.take(i));
        assert(orders.take(k).last() == orders[i]);
    }
}

/// Over one tick the id counter grows by the number of orders, two to ten;
/// at most that many prints are counted; and the volume grows by at most the
/// quantity of the tick's orders, 960. Planning moves only the mid.
pub proof fn lemma_tick_bounds(
    before: EngineState,
    plan: TickPlan,
    states: Seq<EngineState>,
    handed: Seq<EngineState>,
    subs: Seq<Submission>,
    makers: Seq<Option<i64>>,
    unfilled: Seq<i32>,
)
    requires
        plan_fits(plan, states[0].mid_cents as int),
        states.len() > 0,
        states[0].same_but_mid(&before),
        tick_submitted(plan.bids@ + plan.asks@ + plan.takers@, states, handed, subs, makers, unfilled),
    ensures
        ({
            let after = states.last();
            &&& before.next_id + 2 <= after.next_id <= before.next_id + 10
            &&& before.trades <= after.trades <= before.trades + 10
            &&& before.volume <= after.volume <= before.volume + 960
        }),
{
    let orders = plan.bids@ + plan.asks@ + plan.takers@;
    let n = orders.len() as int;
    lemma_tick_prefix(orders, states, handed, subs, makers, unfilled, n);
    assert(orders.take(n) =~= orders);
    lemma_qty_sum_concat(plan.bids@ + plan.asks@, plan.takers@);
    lemma_qty_sum_concat(plan.bids@, plan.asks@);
    lemma_qty_sum_bound(plan.bids@, MAX_PASSIVE_QTY as int);
    lemma_qty_sum_bound(plan.asks@, MAX_PASSIVE_QTY as int);
    lemma_qty_sum_bound(plan.takers@, MAX_AGGRESSIVE_QTY as int);
    assert(plan.bids@.len() * MAX_PASSIVE_QTY <= MAX_PASSIVE_ORDERS * MAX_PASSIVE_QTY) by (nonlinear_arith)
        requires plan.bids@.len() <= MAX_PASSIVE_ORDERS;
    assert(plan.asks@.len() * MAX_PASSIVE_QTY <= MAX_PASSIVE_ORDERS * MAX_PASSIVE_QTY) by (nonlinear_arith)
        requires plan.asks@.len() <= MAX_PASSIVE_ORDERS;
    assert(plan.takers@.len() * MAX_AGGRESSIVE_QTY <= MAX_AGGRESSIVE_ORDERS * MAX_AGGRESSIVE_QTY) by (nonlinear_arith)
        requires plan.takers@.len() <= MAX_AGGRESSIVE_ORDERS;
    assert(states.last() == states[n]);
}

/// A state made fresh from an ASCII symbol holds it in upper case, so a reset
/// keeps that symbol as it is.
pub proof fn lemma_ascii_symbol_stays_on_reset(fresh: EngineState, symbol: Seq<char>, requested: int)
    requires
        fresh.is_fresh(symbol, requested),
        is_ascii_text(symbol),
    ensures
        is_upper_ascii(fresh.symbol@),
{
    ascii_upper_fixes(symbol);
}

/// A dollar string of cents always ends in a point and two digits, the cents
/// part of the price.
pub proof fn lemma_cents_text_ends_in_two_decimals(c: int)
    ensures
        ({
            let t = cents_text(c);
            let a = abs(c);
            &&& t.len() >= 4
            &&& t[t.len() - 3] == '.'
            &&& t[t.len() - 2] == digit_char((a / 10) % 10)
            &&& t[t.len() - 1] == digit_char(a % 10)
        }),
{
    let a = abs(c) as nat;
    assert(pow10(2) == 100) by {
        reveal_with_fuel(pow10, 3);
    }
    let p = padded_text(a % 100, 2);
    assert(p =~= seq![digit_char((((a % 100) / 10) % 10) as int), digit_char(((a % 100) % 10) as int)]) by {
        reveal_with_fuel(padded_text, 3);
    }
    assert((a % 100) % 10 == a % 10);
    assert(((a % 100) / 10) % 10 == (a / 10) % 10);
    lemma_nat_text_nonempty(a / 100);
}

proof fn lemma_nat_text_nonempty(n: nat)
    ensures
        nat_text(n).len() >= 1,
    decreases n,
{
    if n >= 10 {
        lemma_nat_text_nonempty(n / 10);
    }
}

proof fn lemma_digit_char_injective(x: int, y: int)
    requires
        0 <= x < 10,
        0 <= y < 10,
        digit_char(x) == digit_char(y),
    ensures
        x == y,
{
    assert(digit_char(x) as int == 48 + x);
    assert(digit_char(y) as int == 48 + y);
}

proof fn lemma_nat_text_first_is_digit(n: nat)
    ensures
        nat_text(n).len() >= 1,
        48 <= nat_text(n)[0] as int <= 57,
    decreases n,
{
    if n >= 10 {
        lemma_nat_text_first_is_digit(n / 10);
        assert(nat_text(n)[0] == nat_text(n / 10)[0]);
    } else {
        assert(digit_char(n as int) as int == 48 + n);
    }
}

proof fn lemma_nat_text_injective(m: nat, n: nat)
    requires
        nat_text(m) == nat_text(n),
    ensures
        m == n,
    decreases m + n,
{
    let t = nat_text(m);
    if m < 10 {
        assert(t =~= seq![digit_char(m as int)]);
    } else {
        lemma_nat_text_first_is_digit(m / 10);
        assert(t =~= nat_text(m / 10) + seq![digit_char((m % 10) as int)]);
    }
    if n < 10 {
        assert(t =~= seq![digit_char(n as int)]);
    } else {
        lemma_nat_text_first_is_digit(n / 10);
        assert(t =~= nat_text(n / 10) + seq![digit_char((n % 10) as int)]);
    }
    if m < 10 && n < 10 {
        assert(t[0] == digit_char(m as int));
        assert(t[0] == digit_char(n as int));
        lemma_digit_char_injective(m as int, n as int);
    } else if m >= 10 && n >= 10 {
        assert(t.last() == digit_char((m % 10) as int));
        assert(t.last() == digit_char((n % 10) as int));
        lemma_digit_char_injective((m % 10) as int, (n % 10) as int);
        assert(nat_text(m / 10) =~= t.drop_last());
        assert(nat_text(n / 10) =~= t.drop_last());
        lemma_nat_text_injective(m / 10, n / 10);
    }
}

pub open spec fn sign_text(c: int) -> Seq<char> {
    if c < 0 { seq!['-'] } else { Seq::<char>::empty() }
}

pub open spec fn cents_tail(x: int) -> Seq<char> {
    seq!['.', digit_char(x / 10), digit_char(x % 10)]
}

/// A dollar string of cents is a sign, the whole dollars, a point and the two
/// digits of the cents.
pub proof fn lemma_cents_text_parts(c: int)
    ensures
        cents_text(c) =~= sign_text(c) + nat_text((abs(c) / 100) as nat) + cents_tail(abs(c) % 100),
{
    let a = abs(c) as nat;
    assert(pow10(2) == 100) by {
        reveal_with_fuel(pow10, 3);
    }
    assert(padded_text(a % 100, 2) =~= seq![
        digit_char((((a % 100) / 10) % 10) as int),
        digit_char(((a % 100) % 10) as int),
    ]) by {
        reveal_with_fuel(padded_text, 3);
    }
    assert(((a % 100) / 10) % 10 == (a % 100) / 10);
}

/// The dollar string of a price determines the price: two prices in cents
/// with the same text are the same.
pub proof fn lemma_cents_text_determines_cents(a: int, b: int)
    requires
        cents_text(a) == cents_text(b),
    ensures
        a == b,
{
    lemma_cents_text_parts(a);
    lemma_cents_text_parts(b);
    let t = cents_text(a);
    let na = nat_text((abs(a) / 100) as nat);
    let nb = nat_text((abs(b) / 100) as nat);
    let xa = abs(a) % 100;
    let xb = abs(b) % 100;
    lemma_nat_text_first_is_digit((abs(a) / 100) as nat);
    lemma_nat_text_first_is_digit((abs(b) / 100) as nat);
    // The sign.
    if a < 0 {
        assert(t[0] == '-');
    } else {
        assert(t[0] == na[0]);
    }
    if b < 0 {
        assert(t[0] == '-');
    } else {
        assert(t[0] == nb[0]);
    }
    assert((a < 0) == (b < 0));
    let k: int = if a < 0 { 1 } else { 0 };
    // The whole dollars.
    assert(t.subrange(k, t.len() - 3) =~= na);
    assert(t.subrange(k, t.len() - 3) =~= nb);
    lemma_nat_text_injective((abs(a) / 100) as nat, (abs(b) / 100) as nat);
    // The cents.
    assert(t.subrange(t.len() - 3, t.len() as int) =~= cents_tail(xa));
    assert(t.subrange(t.len() - 3, t.len() as int) =~= cents_tail(xb));
    assert(cents_tail(xa)[1] == cents_tail(xb)[1]);
    assert(cents_tail(xa)[2] == cents_tail(xb)[2]);
    lemma_digit_char_injective(xa / 10, xb / 10);
    lemma_digit_char_injective(xa % 10, xb % 10);
    assert(xa == xb);
}

/// A fill prints at the maker's price: whenever some quantity of an order of
/// either side fills and the opposite book had a best price, the last trade is
/// at that price; only when the opposite book was empty does it print at the
/// order's own price. The print's quantity is what filled.
pub proof fn lemma_fill_prints_at_maker_price(
    before: EngineState,
    after: EngineState,
    sub: Submission,
    maker_cents: Option<i64>,
    unfilled: i32,
)
    requires
        fill_recorded(before, after, sub, maker_cents, unfilled),
        sub.qty - unfilled > 0,
    ensures
        forall|p: i64| maker_cents == Some(p) ==> after.last_trade_cents == Some(p),
        maker_cents is None ==> after.last_trade_cents == Some(sub.price_cents),
        after.last_trade_qty == sub.qty - unfilled,
        after.volume == before.volume + (sub.qty - unfilled),
        after.trades == before.trades + 1,
{
}

/// The mid after a drift is the moved mid held inside the band: the floor when
/// the move falls below it, the ceiling when it rises above it, the moved mid
/// otherwise. From inside the band it moves by at most the largest drift, and
/// it never leaves the band.
pub proof fn lemma_drift_is_clamped(mid: int, drift_ticks: int, floor: int, ceil: int)
    requires
        floor <= ceil,
    ensures
        ({
            let moved = mid + drift_ticks * TICK_CENTS;
            let after = drifted_mid(mid, drift_ticks, floor, ceil);
            &&& moved < floor ==> after == floor
            &&& moved > ceil ==> after == ceil
            &&& floor <= moved <= ceil ==> after == moved
            &&& floor <= after <= ceil
            &&& floor <= mid <= ceil && -MAX_DRIFT_TICKS <= drift_ticks <= MAX_DRIFT_TICKS ==> {
                &&& after - mid <= MAX_DRIFT_TICKS * TICK_CENTS
                &&& mid - after <= MAX_DRIFT_TICKS * TICK_CENTS
            }
        }),
{
}

/// The band is symmetric around the anchor wherever it fits above one cent:
/// the floor lies as far below the anchor as the ceiling lies above it, and
/// only where that would reach below one cent is the floor one cent. The
/// band is a fifth of the anchor, at least 5.00.
pub proof fn lemma_band_is_symmetric(requested: int)
    ensures
        ({
            let anchor = anchor_of(requested);
            let half_width = ceil_of(requested) - anchor;
            &&& half_width >= MIN_BAND_CENTS
            &&& half_width >= anchor / 5
            &&& (half_width == MIN_BAND_CENTS || half_width == anchor / 5)
            &&& anchor - half_width >= 1 ==> anchor - floor_of(requested) == half_width
            &&& anchor - half_width < 1 ==> floor_of(requested) == 1
        }),
{
}

/// A spread and a mid are reported exactly when both books have a best price;
/// the spread is then the best ask less the best bid.
pub proof fn lemma_spread_needs_both_sides(bids: Seq<PriceLevel>, asks: Seq<PriceLevel>)
    ensures
        spread_text(bids, asks) is Some <==> bids.len() > 0 && asks.len() > 0,
        mid_text(bids, asks) is Some <==> bids.len() > 0 && asks.len() > 0,
        bids.len() > 0 && asks.len() > 0 ==> spread_text(bids, asks) == Some(
            cents_text(asks[0].price_cents - bids[0].price_cents),
        ),
{
}

/// Number of orders resting on the levels.
pub open spec fn order_count(levels: Seq<PriceLevel>) -> int
    decreases levels.len(),
{
    if levels.len() == 0 {
        0
    } else {
        order_count(levels.drop_last()) + levels.last().order_ids@.len()
    }
}

/// The `j`-th order of the `i`-th level stands in the ids of the side right
/// after the orders of the levels before it.
pub open spec fn at_offset(levels: Seq<PriceLevel>, i: int, j: int) -> bool {
    let k = order_count(levels.take(i)) + j;
    &&& 0 <= k < ids_of(levels).len()
    &&& ids_of(levels)[k] == levels[i].order_ids@[j]
}

/// The orders of the first `k` levels are no more than all of them.
proof fn lemma_order_count_prefix(levels: Seq<PriceLevel>, k: int)
    requires
        0 <= k <= levels.len(),
    ensures
        0 <= order_count(levels.take(k)) <= order_count(levels),
    decreases levels.len(),
{
    if k == levels.len() {
        assert(levels.take(k) =~= levels);
        if levels.len() > 0 {
            lemma_order_count_prefix(levels.drop_last(), k - 1);
        }
    } else {
        let p = levels.drop_last();
        lemma_order_count_prefix(p, k);
        assert(levels.take(k) =~= p.take(k));
    }
}

proof fn lemma_ids_len(levels: Seq<PriceLevel>)
    ensures
        ids_of(levels).len() == order_count(levels),
    decreases levels.len(),
{
    if levels.len() > 0 {
        lemma_ids_len(levels.drop_last());
    }
}

proof fn lemma_at_offset(levels: Seq<PriceLevel>, i: int, j: int)
    requires
        0 <= i < levels.len(),
        0 <= j < levels[i].order_ids@.len(),
    ensures
        at_offset(levels, i, j),
    decreases levels.len(),
{
    let p = levels.drop_last();
    let n = levels.len() - 1;
    lemma_ids_len(p);
    assert(levels.take(n) =~= p);
    assert(ids_of(levels) == ids_of(p) + levels[n].order_ids@);
    if i < n {
        lemma_at_offset(p, i, j);
        assert(levels.take(i) =~= p.take(i));
        assert(p[i] == levels[i]);
        lemma_order_count_prefix(p, i + 1);
        assert(p.take(i + 1).drop_last() =~= p.take(i));
        assert(p.take(i + 1).last() == p[i]);
        assert(order_count(p.take(i + 1)) == order_count(p.take(i)) + p[i].order_ids@.len());
    }
}

/// The ids read from a side are all of its orders, level after level: there
/// are as many as orders rest there, and the `j`-th order of the `i`-th level
/// comes right after the orders of the levels before it.
pub proof fn lemma_side_ids_are_all_orders(levels: Seq<PriceLevel>)
    ensures
        ids_of(levels).len() == order_count(levels),
        forall|i: int, j: int|
            0 <= i < levels.len() && 0 <= j < levels[i].order_ids@.len() ==> #[trigger] at_offset(
                levels,
                i,
                j,
            ),
        forall|i: int, j: int|
            #![trigger levels[i].order_ids@[j]]
            0 <= i < levels.len() && 0 <= j < levels[i].order_ids@.len() ==> ids_of(
                levels,
            ).contains(levels[i].order_ids@[j]),
{
    lemma_ids_len(levels);
    assert forall|i: int, j: int|
        0 <= i < levels.len() && 0 <= j < levels[i].order_ids@.len() implies #[trigger] at_offset(
            levels,
            i,
            j,
        ) by {
        lemma_at_offset(levels, i, j);
    }
    assert forall|i: int, j: int|
        #![trigger levels[i].order_ids@[j]]
        0 <= i < levels.len() && 0 <= j < levels[i].order_ids@.len() implies at_offset(levels, i, j)
            && ids_of(levels).contains(levels[i].order_ids@[j]) by {
        lemma_at_offset(levels, i, j);
        let k = order_count(levels.take(i)) + j;
        assert(ids_of(levels)[k] == levels[i].order_ids@[j]);
    }
}

} // verus!
