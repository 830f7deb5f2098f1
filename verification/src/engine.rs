//! The simulator's state and the decisions of each step: seeding the band,
//! drifting the mid, planning the orders of a tick, and folding the matching
//! engine's answer to an order back into the state.

use vstd::prelude::*;
use crate::chance::{random_in, random_ratio};
use crate::text::{ascii_upper, is_ascii_text, uppercase, upper_text};

verus! {

/// Prices live on a one-cent grid, tracked as integer cents.
pub const TICK_CENTS: i64 = 1;

/// Soft cap on resting orders per side; above it orders are cancelled.
pub const MAX_ORDERS_PER_SIDE: usize = 120;

/// Anchor when no stock is loaded: 100.00.
pub const DEFAULT_ANCHOR_CENTS: i64 = 10_000;

/// Ticks run right after seeding, so that the first render is not empty.
pub const SEED_TICKS: usize = 8;

/// The mid may wander this share of the anchor (one fifth) each way ...
pub const BAND_DIVISOR: i64 = 5;

/// ... but at least this many cents (5.00).
pub const MIN_BAND_CENTS: i64 = 500;

/// Largest drift of the mid in one tick, in ticks.
pub const MAX_DRIFT_TICKS: i64 = 2;

/// Passive orders rest between one and this many ticks away from the mid.
pub const MAX_PASSIVE_OFFSET_TICKS: i64 = 15;

/// Largest quantity of a passive order.
pub const MAX_PASSIVE_QTY: i64 = 100;

/// Each tick posts between one and this many passive orders per side.
pub const MAX_PASSIVE_ORDERS: i64 = 4;

/// Each tick fires at most this many aggressive orders.
pub const MAX_AGGRESSIVE_ORDERS: i64 = 2;

/// Aggressive orders reach at most this many ticks across the mid.
pub const MAX_REACH_TICKS: i64 = 8;

/// Largest quantity of an aggressive order.
pub const MAX_AGGRESSIVE_QTY: i64 = 80;

/// Highest ceiling of the band: the mid plus the widest passive offset must
/// still fit in an `i64`.
pub const MAX_CEIL_CENTS: i64 = 9_223_372_036_854_775_792;

/// The side of an order.
#[derive(Clone, Copy, Debug, PartialEq, Eq, Structural)]
pub enum Side {
    Buy,
    Sell,
}

/// An order to send to the matching engine.
#[derive(Clone, Copy, Debug, PartialEq, Eq, Structural)]
pub struct Order {
    pub side: Side,
    pub price_cents: i64,
    pub qty: i32,
}

/// An order given an id, on its way into the matching engine (or, once the
/// engine has answered, the unfilled part of it that is to rest on its side).
#[derive(Clone, Copy, Debug, PartialEq, Eq, Structural)]
pub struct Submission {
    pub id: u64,
    pub side: Side,
    pub price_cents: i64,
    pub qty: i32,
}

/// The orders of one tick, in the order in which they are to be submitted:
/// first `bids`, then `asks`, then `takers`.
pub struct TickPlan {
    /// How many ticks the mid was asked to move before it was clamped.
    pub drift_ticks: i64,
    /// Passive bids below the mid.
    pub bids: Vec<Order>,
    /// Passive asks above the mid.
    pub asks: Vec<Order>,
    /// Aggressive orders that reach across the mid.
    pub takers: Vec<Order>,
}

/// Everything of the simulator but its two books.
pub struct EngineState {
    /// The id that the next order gets.
    pub next_id: u64,
    /// Ticker currently simulated (e.g. "AAPL", or "SIM" when none is loaded).
    pub symbol: String,
    /// The price the book is anchored at.
    pub anchor_cents: i64,
    /// Current mid, which random-walks inside `floor_cents..=ceil_cents`.
    pub mid_cents: i64,
    pub floor_cents: i64,
    pub ceil_cents: i64,
    /// Price of the most recent trade print, if any has occurred.
    pub last_trade_cents: Option<i64>,
    /// Quantity of the most recent trade print.
    pub last_trade_qty: i32,
    /// Cumulative traded quantity since the book was seeded.
    pub volume: i64,
    /// Number of trade prints since the book was seeded.
    pub trades: u64,
}

impl TickPlan {
    /// The orders of the plan in the order in which they are to be submitted:
    /// the bids, then the asks, then the takers.
    pub fn orders(&self) -> (all: Vec<Order>)
        ensures
            all@ == self.bids@ + self.asks@ + self.takers@,
    {
        let mut all: Vec<Order> = Vec::new();
        let mut i: usize = 0;
        while i < self.bids.len()
            invariant
                0 <= i <= self.bids@.len(),
                all@ == self.bids@.take(i as int),
            decreases self.bids@.len() - i,
        {
            all.push(self.bids[i]);
            proof {
                assert(self.bids@.take(i as int).push(self.bids@[i as int]) =~= self.bids@.take(i + 1));
            }
            i = i + 1;
        }
        proof {
            assert(self.bids@.take(i as int) =~= self.bids@);
        }
        let mut j: usize = 0;
        while j < self.asks.len()
            invariant
                0 <= j <= self.asks@.len(),
                all@ == self.bids@ + self.asks@.take(j as int),
            decreases self.asks@.len() - j,
        {
            all.push(self.asks[j]);
            proof {
                assert(self.asks@.take(j as int).push(self.asks@[j as int]) =~= self.asks@.take(j + 1));
            }
            j = j + 1;
        }
        proof {
            assert(self.asks@.take(j as int) =~= self.asks@);
        }
        let mut k: usize = 0;
        while k < self.takers.len()
            invariant
                0 <= k <= self.takers@.len(),
                all@ == self.bids@ + self.asks@ + self.takers@.take(k as int),
            decreases self.takers@.len() - k,
        {
            all.push(self.takers[k]);
            proof {
                assert(self.takers@.take(k as int).push(self.takers@[k as int]) =~= self.takers@.take(k + 1));
            }
            k = k + 1;
        }
        proof {
            assert(self.takers@.take(k as int) =~= self.takers@);
        }
        all
    }
}

/// `s` is ASCII and already in upper case.
pub open spec fn is_upper_ascii(s: Seq<char>) -> bool {
    &&& is_ascii_text(s)
    &&& s == s.map_values(|c: char| ascii_upper(c))
}

/// Upper-casing an ASCII text gives an ASCII text that upper-casing leaves as
/// it is.
pub proof fn ascii_upper_fixes(s: Seq<char>)
    requires
        is_ascii_text(s),
    ensures
        is_upper_ascii(s.map_values(|c: char| ascii_upper(c))),
{
    let u = s.map_values(|c: char| ascii_upper(c));
    assert forall|i: int| 0 <= i < u.len() implies (#[trigger] u[i] as int) < 128 by {
        assert(u[i] == ascii_upper(s[i]));
        assert((s[i] as int) < 128);
    }
    assert(u =~= u.map_values(|c: char| ascii_upper(c)));
}

pub open spec fn max_int(a: int, b: int) -> int {
    if a < b { b } else { a }
}

pub open spec fn min_int(a: int, b: int) -> int {
    if a < b { a } else { b }
}

/// `x` held inside `lo..=hi`.
pub open spec fn clamp_int(x: int, lo: int, hi: int) -> int {
    max_int(lo, min_int(x, hi))
}

/// The anchor that a requested anchor becomes: at least one cent.
pub open spec fn anchor_of(requested: int) -> int {
    max_int(requested, 1)
}

/// How far the mid may wander from the anchor: a fifth of it, at least 5.00.
pub open spec fn band_of(requested: int) -> int {
    max_int(anchor_of(requested) / BAND_DIVISOR as int, MIN_BAND_CENTS as int)
}

pub open spec fn floor_of(requested: int) -> int {
    max_int(anchor_of(requested) - band_of(requested), 1)
}

pub open spec fn ceil_of(requested: int) -> int {
    anchor_of(requested) + band_of(requested)
}

/// The band around this anchor fits the machine's integers.
pub open spec fn can_anchor(requested: int) -> bool {
    ceil_of(requested) <= MAX_CEIL_CENTS
}

/// The mid after a drift of `drift_ticks` ticks, clamped to the band.
pub open spec fn drifted_mid(mid: int, drift_ticks: int, floor: int, ceil: int) -> int {
    clamp_int(mid + drift_ticks * TICK_CENTS as int, floor, ceil)
}

/// A passive bid of a tick whose mid is `mid`.
pub open spec fn is_passive_bid(o: Order, mid: int) -> bool {
    &&& o.side == Side::Buy
    &&& mid - MAX_PASSIVE_OFFSET_TICKS * TICK_CENTS <= o.price_cents <= mid - TICK_CENTS
    &&& 1 <= o.qty <= MAX_PASSIVE_QTY
}

/// A passive ask of a tick whose mid is `mid`.
pub open spec fn is_passive_ask(o: Order, mid: int) -> bool {
    &&& o.side == Side::Sell
    &&& mid + TICK_CENTS <= o.price_cents <= mid + MAX_PASSIVE_OFFSET_TICKS * TICK_CENTS
    &&& 1 <= o.qty <= MAX_PASSIVE_QTY
}

/// An aggressive order of a tick whose mid is `mid`: a buy at or above the mid
/// or a sell at or below it, at most `MAX_REACH_TICKS` ticks away.
pub open spec fn is_taker(o: Order, mid: int) -> bool {
    &&& o.side == Side::Buy ==> mid <= o.price_cents <= mid + MAX_REACH_TICKS * TICK_CENTS
    &&& o.side == Side::Sell ==> mid - MAX_REACH_TICKS * TICK_CENTS <= o.price_cents <= mid
    &&& 1 <= o.qty <= MAX_AGGRESSIVE_QTY
}

/// The plan holds what one tick posts around the mid `mid`.
pub open spec fn plan_fits(plan: TickPlan, mid: int) -> bool {
    &&& -MAX_DRIFT_TICKS <= plan.drift_ticks <= MAX_DRIFT_TICKS
    &&& 1 <= plan.bids@.len() <= MAX_PASSIVE_ORDERS
    &&& 1 <= plan.asks@.len() <= MAX_PASSIVE_ORDERS
    &&& 0 <= plan.takers@.len() <= MAX_AGGRESSIVE_ORDERS
    &&& forall|i: int| 0 <= i < plan.bids@.len() ==> is_passive_bid(#[trigger] plan.bids@[i], mid)
    &&& forall|i: int| 0 <= i < plan.asks@.len() ==> is_passive_ask(#[trigger] plan.asks@[i], mid)
    &&& forall|i: int| 0 <= i < plan.takers@.len() ==> is_taker(#[trigger] plan.takers@[i], mid)
}

/// `after` is `before` once an order of `qty` at `price_cents` on `side` was
/// handed in: an order of no quantity is dropped and changes nothing; any
/// other gets the next id, and only the id counter moves on.
pub open spec fn submission_begun(
    before: EngineState,
    after: EngineState,
    side: Side,
    price_cents: i64,
    qty: i32,
    sub: Option<Submission>,
) -> bool {
    &&& qty <= 0 ==> sub is None && after.next_id == before.next_id
    &&& qty > 0 ==> sub == Some(Submission { id: before.next_id, side, price_cents, qty })
        && after.next_id == before.next_id + 1
    &&& after.symbol@ == before.symbol@
    &&& after.anchor_cents == before.anchor_cents
    &&& after.mid_cents == before.mid_cents
    &&& after.floor_cents == before.floor_cents
    &&& after.ceil_cents == before.ceil_cents
    &&& after.last_trade_cents == before.last_trade_cents
    &&& after.last_trade_qty == before.last_trade_qty
    &&& after.volume == before.volume
    &&& after.trades == before.trades
}

/// What rests of `sub` once the matching engine left `unfilled` of it: the
/// unfilled part under the same id, side and price, if any is left.
pub open spec fn rest_of(sub: Submission, unfilled: i32) -> Option<Submission> {
    if unfilled > 0 {
        Some(Submission { qty: unfilled, ..sub })
    } else {
        None
    }
}

/// `after` is `before` once the matching engine has left `unfilled` of `sub`
/// and the best price of the opposite book was `maker_cents`: a fill prints a
/// trade at the maker's price (the order's own when there was no maker) and
/// adds to the volume and the count of prints; nothing else changes.
pub open spec fn fill_recorded(
    before: EngineState,
    after: EngineState,
    sub: Submission,
    maker_cents: Option<i64>,
    unfilled: i32,
) -> bool {
    let filled = sub.qty - unfilled;
    &&& after.same_but_trade(&before)
    &&& filled > 0 ==> {
        &&& after.last_trade_cents == Some(
            match maker_cents {
                Some(p) => p,
                None => sub.price_cents,
            },
        )
        &&& after.last_trade_qty == filled
        &&& after.volume == before.volume + filled
        &&& after.trades == before.trades + 1
    }
    &&& filled <= 0 ==> {
        &&& after.last_trade_cents == before.last_trade_cents
        &&& after.last_trade_qty == before.last_trade_qty
        &&& after.volume == before.volume
        &&& after.trades == before.trades
    }
}

/// Whether the band around `anchor_cents` fits the machine's integers, as
/// `EngineState::anchored` requires.
pub fn anchor_fits(anchor_cents: i64) -> (fits: bool)
    ensures
        fits == can_anchor(anchor_cents as int),
{
    let anchor_cents = if anchor_cents < 1 { 1 } else { anchor_cents };
    let fifth = anchor_cents / BAND_DIVISOR;
    let band = if fifth < MIN_BAND_CENTS { MIN_BAND_CENTS } else { fifth };
    anchor_cents <= MAX_CEIL_CENTS - band
}

impl EngineState {
    /// The state is well formed: the band is the one of its anchor, it fits the
    /// machine's integers, and the mid is inside it.
    pub open spec fn wf(&self) -> bool {
        &&& self.anchor_cents >= 1
        &&& can_anchor(self.anchor_cents as int)
        &&& self.floor_cents == floor_of(self.anchor_cents as int)
        &&& self.ceil_cents == ceil_of(self.anchor_cents as int)
        &&& self.floor_cents <= self.mid_cents <= self.ceil_cents
    }

    /// The trade tape is consistent: a last print exists exactly when some
    /// print was counted, the volume is at least the number of prints, and the
    /// last print's quantity is positive and within the volume.
    pub open spec fn tape_ok(&self) -> bool {
        &&& (self.last_trade_cents is Some) == (self.trades > 0)
        &&& self.volume >= self.trades
        &&& self.trades > 0 ==> 1 <= self.last_trade_qty <= self.volume
    }

    /// A fresh state anchored at `requested`, as seeding builds it before its
    /// first ticks: no orders, no trades, the mid at the anchor.
    pub open spec fn is_fresh(&self, symbol: Seq<char>, requested: int) -> bool {
        &&& self.symbol@ == upper_text(symbol)
        &&& is_ascii_text(symbol) ==> self.symbol@ == symbol.map_values(|c: char| ascii_upper(c))
        &&& self.anchor_cents == anchor_of(requested)
        &&& self.mid_cents == anchor_of(requested)
        &&& self.floor_cents == floor_of(requested)
        &&& self.ceil_cents == ceil_of(requested)
        &&& self.next_id == 1
        &&& self.last_trade_cents is None
        &&& self.last_trade_qty == 0
        &&& self.volume == 0
        &&& self.trades == 0
    }

    /// `self` and `other` differ at most in their mid.
    pub open spec fn same_but_mid(&self, other: &EngineState) -> bool {
        &&& self.next_id == other.next_id
        &&& self.symbol@ == other.symbol@
        &&& self.anchor_cents == other.anchor_cents
        &&& self.floor_cents == other.floor_cents
        &&& self.ceil_cents == other.ceil_cents
        &&& self.last_trade_cents == other.last_trade_cents
        &&& self.last_trade_qty == other.last_trade_qty
        &&& self.volume == other.volume
        &&& self.trades == other.trades
    }

    /// `self` and `other` differ at most in the fields of the trade print.
    pub open spec fn same_but_trade(&self, other: &EngineState) -> bool {
        &&& self.next_id == other.next_id
        &&& self.symbol@ == other.symbol@
        &&& self.anchor_cents == other.anchor_cents
        &&& self.mid_cents == other.mid_cents
        &&& self.floor_cents == other.floor_cents
        &&& self.ceil_cents == other.ceil_cents
    }

    /// A fresh state anchored at `anchor_cents` (at least one cent), whose mid
    /// may wander a fifth of the anchor, at least 5.00, each way, but never
    /// below one cent. The symbol is kept in upper case. The caller seeds
    /// liquidity by running `SEED_TICKS` ticks on it.
    pub fn anchored(symbol: &str, anchor_cents: i64) -> (s: EngineState)
        requires
            can_anchor(anchor_cents as int),
        ensures
            s.is_fresh(symbol@, anchor_cents as int),
            s.wf(),
    {
        let anchor_cents = if anchor_cents < 1 { 1 } else { anchor_cents };
        let fifth = anchor_cents / BAND_DIVISOR;
        let band = if fifth < MIN_BAND_CENTS { MIN_BAND_CENTS } else { fifth };
        let low = anchor_cents - band;
        let floor_cents = if low < 1 { 1 } else { low };
        EngineState {
            next_id: 1,
            symbol: uppercase(symbol),
            anchor_cents,
            mid_cents: anchor_cents,
            floor_cents,
            ceil_cents: anchor_cents + band,
            last_trade_cents: None,
            last_trade_qty: 0,
            volume: 0,
            trades: 0,
        }
    }

    /// The state of a simulator with no stock loaded: "SIM" at 100.00.
    pub fn new() -> (s: EngineState)
        ensures
            s.is_fresh("SIM"@, DEFAULT_ANCHOR_CENTS as int),
            s.symbol@ == "SIM"@,
            s.wf(),
    {
        let s = EngineState::anchored("SIM", DEFAULT_ANCHOR_CENTS);
        proof {
            reveal_strlit("SIM");
            assert(is_ascii_text("SIM"@));
            assert("SIM"@.map_values(|c: char| ascii_upper(c)) =~= "SIM"@);
        }
        s
    }

    /// A fresh state at the current symbol and anchor, as a reset builds it.
    pub fn reset(&self) -> (s: EngineState)
        requires
            self.wf(),
        ensures
            s.is_fresh(self.symbol@, self.anchor_cents as int),
            s.anchor_cents == self.anchor_cents,
            s.floor_cents == self.floor_cents,
            s.ceil_cents == self.ceil_cents,
            is_upper_ascii(self.symbol@) ==> s.symbol@ == self.symbol@,
            s.wf(),
    {
        let s = EngineState::anchored(self.symbol.as_str(), self.anchor_cents);
        proof {
            if is_upper_ascii(self.symbol@) {
                assert(s.symbol@ =~= self.symbol@);
            }
        }
        s
    }

    /// Hands out the next order id.
    pub fn alloc_id(&mut self) -> (id: u64)
        requires
            old(self).next_id < u64::MAX,
        ensures
            id == old(self).next_id,
            final(self).next_id == id + 1,
            old(self).wf() ==> final(self).wf(),
            final(self).symbol@ == old(self).symbol@,
            final(self).anchor_cents == old(self).anchor_cents,
            final(self).mid_cents == old(self).mid_cents,
            final(self).floor_cents == old(self).floor_cents,
            final(self).ceil_cents == old(self).ceil_cents,
            final(self).last_trade_cents == old(self).last_trade_cents,
            final(self).last_trade_qty == old(self).last_trade_qty,
            final(self).volume == old(self).volume,
            final(self).trades == old(self).trades,
    {
        let id = self.next_id;
        self.next_id = self.next_id + 1;
        id
    }
    /// First half of submitting an order: an order of no quantity is dropped
    /// (`None`, nothing changes); any other gets the next id and is to be
    /// crossed against the opposite book.
    pub fn begin_submit(&mut self, side: Side, price_cents: i64, qty: i32) -> (sub: Option<Submission>)
        requires
            qty > 0 ==> old(self).next_id < u64::MAX,
        ensures
            submission_begun(*old(self), *final(self), side, price_cents, qty, sub),
            old(self).wf() ==> final(self).wf(),
    {
        if qty <= 0 {
            return None;
        }
        let id = self.alloc_id();
        Some(Submission { id, side, price_cents, qty })
    }

    /// Second half of submitting an order, once the matching engine has
    /// crossed `sub` against the opposite book and left `unfilled` of it;
    /// `maker_cents` is the best price of that book before the cross. A fill
    /// (`sub.qty - unfilled > 0`) prints a trade at the maker's price, or at the
    /// order's own price when the opposite book was empty, and adds to the
    /// volume and the count of prints. Whatever is left unfilled is returned
    /// to rest on the order's own side, under the same id and price.
    pub fn finish_submit(&mut self, sub: Submission, maker_cents: Option<i64>, unfilled: i32) -> (rest: Option<Submission>)
        requires
            i32::MIN <= sub.qty - unfilled <= i32::MAX,
            sub.qty - unfilled > 0 ==> old(self).volume + (sub.qty - unfilled) <= i64::MAX
                && old(self).trades < u64::MAX,
        ensures
            fill_recorded(*old(self), *final(self), sub, maker_cents, unfilled),
            old(self).wf() ==> final(self).wf(),
            rest == rest_of(sub, unfilled),
    {
        let filled = sub.qty - unfilled;
        if filled > 0 {
            self.last_trade_cents = match maker_cents {
                Some(p) => Some(p),
                None => Some(sub.price_cents),
            };
            self.last_trade_qty = filled;
            self.volume = self.volume + filled as i64;
            self.trades = self.trades + 1;
        }
        if unfilled > 0 {
            Some(Submission { id: sub.id, side: sub.side, price_cents: sub.price_cents, qty: unfilled })
        } else {
            None
        }
    }

    /// Drifts the mid by a random walk step of at most two ticks, held inside
    /// the band, and plans the orders of one tick around the new mid: one to
    /// four passive bids below it, one to four passive asks above it, and up to
    /// two aggressive orders that reach across it. The caller submits the
    /// orders in the plan's order and then trims both sides.
    pub fn plan_tick(&mut self) -> (plan: TickPlan)
        requires
            old(self).wf(),
        ensures
            final(self).wf(),
            final(self).same_but_mid(old(self)),
            final(self).mid_cents == drifted_mid(
                old(self).mid_cents as int,
                plan.drift_ticks as int,
                old(self).floor_cents as int,
                old(self).ceil_cents as int,
            ),
            plan_fits(plan, final(self).mid_cents as int),
    {
        let drift_ticks = random_in(-MAX_DRIFT_TICKS, MAX_DRIFT_TICKS);
        let moved = self.mid_cents + drift_ticks * TICK_CENTS;
        self.mid_cents = if moved < self.floor_cents {
            self.floor_cents
        } else if moved > self.ceil_cents {
            self.ceil_cents
        } else {
            moved
        };
        let mid = self.mid_cents;
        let bids = passive_orders(Side::Buy, mid);
        let asks = passive_orders(Side::Sell, mid);
        let takers = taker_orders(mid);
        TickPlan { drift_ticks, bids, asks, takers }
    }
}

/// A passive order on `side` for `qty`, resting `offset_ticks` ticks away
/// from `mid` on that side: below it for a bid, above it for an ask.
pub fn passive_order(side: Side, mid: i64, offset_ticks: i64, qty: i64) -> (o: Order)
    requires
        1 <= mid <= MAX_CEIL_CENTS,
        1 <= offset_ticks <= MAX_PASSIVE_OFFSET_TICKS,
        1 <= qty <= MAX_PASSIVE_QTY,
    ensures
        o.side == side,
        o.price_cents == (match side {
            Side::Buy => mid - offset_ticks * TICK_CENTS,
            Side::Sell => mid + offset_ticks * TICK_CENTS,
        }),
        o.qty == qty,
        side == Side::Buy ==> is_passive_bid(o, mid as int),
        side == Side::Sell ==> is_passive_ask(o, mid as int),
{
    let offset = offset_ticks * TICK_CENTS;
    let price_cents = match side {
        Side::Buy => mid - offset,
        Side::Sell => mid + offset,
    };
    Order { side, price_cents, qty: qty as i32 }
}

/// An aggressive order for `qty` reaching `reach_ticks` ticks across `mid`:
/// a buy above it when `buy`, else a sell below it.
pub fn taker_order(mid: i64, reach_ticks: i64, qty: i64, buy: bool) -> (o: Order)
    requires
        1 <= mid <= MAX_CEIL_CENTS,
        0 <= reach_ticks <= MAX_REACH_TICKS,
        1 <= qty <= MAX_AGGRESSIVE_QTY,
    ensures
        buy ==> o.side == Side::Buy && o.price_cents == mid + reach_ticks * TICK_CENTS,
        !buy ==> o.side == Side::Sell && o.price_cents == mid - reach_ticks * TICK_CENTS,
        o.qty == qty,
        is_taker(o, mid as int),
{
    let reach = reach_ticks * TICK_CENTS;
    if buy {
        Order { side: Side::Buy, price_cents: mid + reach, qty: qty as i32 }
    } else {
        Order { side: Side::Sell, price_cents: mid - reach, qty: qty as i32 }
    }
}

/// One to four passive orders on `side`, one to fifteen ticks away from `mid`
/// on that side, each of one to a hundred.
fn passive_orders(side: Side, mid: i64) -> (orders: Vec<Order>)
    requires
        1 <= mid <= MAX_CEIL_CENTS,
    ensures
        1 <= orders@.len() <= MAX_PASSIVE_ORDERS,
        side == Side::Buy ==> forall|i: int|
            0 <= i < orders@.len() ==> is_passive_bid(#[trigger] orders@[i], mid as int),
        side == Side::Sell ==> forall|i: int|
            0 <= i < orders@.len() ==> is_passive_ask(#[trigger] orders@[i], mid as int),
{
    let count = random_in(1, MAX_PASSIVE_ORDERS);
    let mut orders: Vec<Order> = Vec::new();
    let mut k: i64 = 0;
    while k < count
        invariant
            1 <= mid <= MAX_CEIL_CENTS,
            1 <= count <= MAX_PASSIVE_ORDERS,
            0 <= k <= count,
            orders@.len() == k,
            side == Side::Buy ==> forall|i: int|
                0 <= i < orders@.len() ==> is_passive_bid(#[trigger] orders@[i], mid as int),
            side == Side::Sell ==> forall|i: int|
                0 <= i < orders@.len() ==> is_passive_ask(#[trigger] orders@[i], mid as int),
        decreases count - k,
    {
        let offset_ticks = random_in(1, MAX_PASSIVE_OFFSET_TICKS);
        let qty = random_in(1, MAX_PASSIVE_QTY);
        orders.push(passive_order(side, mid, offset_ticks, qty));
        k = k + 1;
    }
    orders
}

/// Up to two aggressive orders: each reaches zero to eight ticks across `mid`,
/// as a buy above it or a sell below it with even odds, for one to eighty.
fn taker_orders(mid: i64) -> (orders: Vec<Order>)
    requires
        1 <= mid <= MAX_CEIL_CENTS,
    ensures
        0 <= orders@.len() <= MAX_AGGRESSIVE_ORDERS,
        forall|i: int| 0 <= i < orders@.len() ==> is_taker(#[trigger] orders@[i], mid as int),
{
    let count = random_in(0, MAX_AGGRESSIVE_ORDERS);
    let mut orders: Vec<Order> = Vec::new();
    let mut k: i64 = 0;
    while k < count
        invariant
            1 <= mid <= MAX_CEIL_CENTS,
            0 <= count <= MAX_AGGRESSIVE_ORDERS,
            0 <= k <= count,
            orders@.len() == k,
            forall|i: int| 0 <= i < orders@.len() ==> is_taker(#[trigger] orders@[i], mid as int),
        decreases count - k,
    {
        let reach_ticks = random_in(0, MAX_REACH_TICKS);
        let qty = random_in(1, MAX_AGGRESSIVE_QTY);
        let buy = random_ratio(1, 2);
        orders.push(taker_order(mid, reach_ticks, qty, buy));
        k = k + 1;
    }
    orders
}

} // verus!
