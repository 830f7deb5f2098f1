//! Views of the two books, best price first, and the snapshot that the
//! front end renders from them.

use vstd::prelude::*;
use crate::engine::{EngineState, min_int};
use crate::text::{cents_string, cents_text, decimal_quotient_string, decimal_quotient_text, CENT_SCALE};

verus! {

/// One price level of a book: its price, the quantity resting there, and the
/// ids of the orders at that price in time priority.
pub struct PriceLevel {
    pub price_cents: i64,
    pub total_qty: i32,
    pub order_ids: Vec<u64>,
}

/// One price level as sent to the front end.
pub struct LevelDto {
    /// Dollar string of the price, such as "100.00".
    pub price: String,
    pub qty: i32,
    /// Number of orders resting at the price.
    pub orders: usize,
}

/// Full book view: bids best-first (high to low), asks best-first (low to high).
pub struct BookSnapshot {
    /// Ticker currently simulated (e.g. "AAPL", or "SIM" when none is loaded).
    pub symbol: String,
    /// Price the book was anchored at, as a dollar string.
    pub last_price: String,
    pub bids: Vec<LevelDto>,
    pub asks: Vec<LevelDto>,
    pub best_bid: Option<String>,
    pub best_ask: Option<String>,
    pub spread: Option<String>,
    pub mid: Option<String>,
    /// Largest quantity among the levels shown, 0 when none is shown.
    pub max_qty: i32,
    /// Last trade print (maker price) as a dollar string, if any trade happened.
    pub last_trade: Option<String>,
    pub last_trade_qty: i32,
    pub volume: i64,
    pub trades: u64,
}

/// All order ids of a book, level after level.
pub open spec fn ids_of(levels: Seq<PriceLevel>) -> Seq<u64>
    decreases levels.len(),
{
    if levels.len() == 0 {
        Seq::<u64>::empty()
    } else {
        ids_of(levels.drop_last()) + levels.last().order_ids@
    }
}

/// The levels shown at depth `depth`: the first `depth` of them.
pub open spec fn shown(levels: Seq<PriceLevel>, depth: int) -> Seq<PriceLevel> {
    levels.take(min_int(depth, levels.len() as int))
}

/// `row` is how the level `level` is sent to the front end.
pub open spec fn row_shows(row: LevelDto, level: PriceLevel) -> bool {
    &&& row.price@ == cents_text(level.price_cents as int)
    &&& row.qty == level.total_qty
    &&& row.orders == level.order_ids@.len()
}

/// `rows` shows the levels `levels`, one row each, in order.
pub open spec fn rows_show(rows: Seq<LevelDto>, levels: Seq<PriceLevel>) -> bool {
    &&& rows.len() == levels.len()
    &&& forall|i: int| 0 <= i < rows.len() ==> row_shows(#[trigger] rows[i], levels[i])
}

pub open spec fn row_qtys(rows: Seq<LevelDto>) -> Seq<i32> {
    rows.map_values(|r: LevelDto| r.qty)
}

/// The largest element of `s`, if it has one.
pub open spec fn seq_max(s: Seq<i32>) -> Option<i32>
    decreases s.len(),
{
    if s.len() == 0 {
        None
    } else {
        match seq_max(s.drop_last()) {
            None => Some(s.last()),
            Some(m) => Some(if s.last() > m { s.last() } else { m }),
        }
    }
}

pub open spec fn max_or_zero(s: Seq<i32>) -> int {
    match seq_max(s) {
        Some(m) => m as int,
        None => 0,
    }
}

pub open spec fn text_of(s: Option<String>) -> Option<Seq<char>> {
    match s {
        Some(t) => Some(t@),
        None => None,
    }
}

/// Dollar string of the best price of a book, if it has one.
pub open spec fn best_text(levels: Seq<PriceLevel>) -> Option<Seq<char>> {
    if levels.len() == 0 {
        None
    } else {
        Some(cents_text(levels[0].price_cents as int))
    }
}

/// Spread between the best ask and the best bid, when both books have one.
pub open spec fn spread_text(bids: Seq<PriceLevel>, asks: Seq<PriceLevel>) -> Option<Seq<char>> {
    if bids.len() == 0 || asks.len() == 0 {
        None
    } else {
        Some(cents_text(asks[0].price_cents - bids[0].price_cents))
    }
}

/// Mid between the best bid and the best ask, when both books have one: their
/// sum, halved by `rust_decimal`.
pub open spec fn mid_text(bids: Seq<PriceLevel>, asks: Seq<PriceLevel>) -> Option<Seq<char>> {
    if bids.len() == 0 || asks.len() == 0 {
        None
    } else {
        Some(
            decimal_quotient_text(
                bids[0].price_cents + asks[0].price_cents,
                CENT_SCALE as int,
                2,
            ),
        )
    }
}

/// Best (top-of-book) price of a book, in cents, if it has liquidity.
pub fn best_cents(levels: &Vec<PriceLevel>) -> (best: Option<i64>)
    ensures
        best == (if levels@.len() == 0 {
            None::<i64>
        } else {
            Some(levels@[0].price_cents)
        }),
{
    if levels.len() == 0 {
        None
    } else {
        Some(levels[0].price_cents)
    }
}

/// All live order ids of a book, read from its levels.
pub fn side_ids(levels: &Vec<PriceLevel>) -> (ids: Vec<u64>)
    ensures
        ids@ == ids_of(levels@),
{
    let mut ids: Vec<u64> = Vec::new();
    let n = levels.len();
    let mut i: usize = 0;
    while i < n
        invariant
            n == levels@.len(),
            0 <= i <= n,
            ids@ == ids_of(levels@.take(i as int)),
        decreases n - i,
    {
        let level = &levels[i];
        let m = level.order_ids.len();
        let mut j: usize = 0;
        while j < m
            invariant
                n == levels@.len(),
                0 <= i < n,
                level == &levels@[i as int],
                m == level.order_ids@.len(),
                0 <= j <= m,
                ids@ == ids_of(levels@.take(i as int)) + level.order_ids@.take(j as int),
            decreases m - j,
        {
            ids.push(level.order_ids[j]);
            proof {
                assert(level.order_ids@.take(j as int).push(level.order_ids@[j as int])
                    =~= level.order_ids@.take(j + 1));
            }
            j = j + 1;
        }
        proof {
            assert(level.order_ids@.take(m as int) =~= level.order_ids@);
            assert(levels@.take(i + 1).drop_last() =~= levels@.take(i as int));
            assert(levels@.take(i + 1).last() == levels@[i as int]);
        }
        i = i + 1;
    }
    proof {
        assert(levels@.take(n as int) =~= levels@);
    }
    ids
}

impl LevelDto {
    /// How one price level is sent to the front end.
    pub fn from_level(level: &PriceLevel) -> (row: LevelDto)
        ensures
            row_shows(row, *level),
    {
        LevelDto {
            price: cents_string(level.price_cents as i128),
            qty: level.total_qty,
            orders: level.order_ids.len(),
        }
    }
}

/// The rows of the first `depth` levels of a book.
pub fn level_rows(levels: &Vec<PriceLevel>, depth: usize) -> (rows: Vec<LevelDto>)
    ensures
        rows_show(rows@, shown(levels@, depth as int)),
{
    let n = if depth < levels.len() { depth } else { levels.len() };
    let mut rows: Vec<LevelDto> = Vec::new();
    let mut i: usize = 0;
    while i < n
        invariant
            n <= levels@.len(),
            n == min_int(depth as int, levels@.len() as int),
            0 <= i <= n,
            rows_show(rows@, levels@.take(i as int)),
        decreases n - i,
    {
        let row = LevelDto::from_level(&levels[i]);
        rows.push(row);
        i = i + 1;
    }
    rows
}

/// The largest quantity among `rows`, continuing from `best`.
fn fold_max(best: Option<i32>, rows: &Vec<LevelDto>, prefix: Ghost<Seq<i32>>) -> (r: Option<i32>)
    requires
        best == seq_max(prefix@),
    ensures
        r == seq_max(prefix@ + row_qtys(rows@)),
{
    let mut best = best;
    let n = rows.len();
    let mut i: usize = 0;
    while i < n
        invariant
            n == rows@.len(),
            0 <= i <= n,
            best == seq_max(prefix@ + row_qtys(rows@).take(i as int)),
        decreases n - i,
    {
        let q = rows[i].qty;
        proof {
            let s = prefix@ + row_qtys(rows@).take(i + 1);
            assert(s.drop_last() =~= prefix@ + row_qtys(rows@).take(i as int));
            assert(s.last() == q);
        }
        best = match best {
            None => Some(q),
            Some(m) => Some(if q > m { q } else { m }),
        };
        i = i + 1;
    }
    proof {
        assert(row_qtys(rows@).take(n as int) =~= row_qtys(rows@));
    }
    best
}

impl EngineState {
    /// The snapshot of the book at depth `depth`: the best `depth` levels of
    /// each side, the best prices, spread and mid when both sides have
    /// liquidity, the largest quantity shown, and the trade tape.
    pub fn snapshot(&self, bids: &Vec<PriceLevel>, asks: &Vec<PriceLevel>, depth: usize) -> (snap: BookSnapshot)
        ensures
            snap.symbol@ == self.symbol@,
            snap.last_price@ == cents_text(self.anchor_cents as int),
            rows_show(snap.bids@, shown(bids@, depth as int)),
            rows_show(snap.asks@, shown(asks@, depth as int)),
            text_of(snap.best_bid) == best_text(bids@),
            text_of(snap.best_ask) == best_text(asks@),
            text_of(snap.spread) == spread_text(bids@, asks@),
            text_of(snap.mid) == mid_text(bids@, asks@),
            snap.max_qty == max_or_zero(row_qtys(snap.bids@) + row_qtys(snap.asks@)),
            text_of(snap.last_trade) == (match self.last_trade_cents {
                Some(c) => Some(cents_text(c as int)),
                None => None::<Seq<char>>,
            }),
            snap.last_trade_qty == self.last_trade_qty,
            snap.volume == self.volume,
            snap.trades == self.trades,
    {
        let best_bid = best_cents(bids);
        let best_ask = best_cents(asks);
        let bid_rows = level_rows(bids, depth);
        let ask_rows = level_rows(asks, depth);
        let ghost empty = Seq::<i32>::empty();
        let top = fold_max(None, &bid_rows, Ghost(empty));
        proof {
            assert(empty + row_qtys(bid_rows@) =~= row_qtys(bid_rows@));
        }
        let top = fold_max(top, &ask_rows, Ghost(row_qtys(bid_rows@)));
        let max_qty = match top {
            Some(m) => m,
            None => 0,
        };
        let (spread, mid) = match (best_bid, best_ask) {
            (Some(bb), Some(ba)) => {
                let spread = cents_string(ba as i128 - bb as i128);
                let mid = decimal_quotient_string(bb as i128 + ba as i128, CENT_SCALE, 2);
                (Some(spread), Some(mid))
            },
            _ => (None, None),
        };
        let best_bid = match best_bid {
            Some(c) => Some(cents_string(c as i128)),
            None => None,
        };
        let best_ask = match best_ask {
            Some(c) => Some(cents_string(c as i128)),
            None => None,
        };
        let last_trade = match self.last_trade_cents {
            Some(c) => Some(cents_string(c as i128)),
            None => None,
        };
        BookSnapshot {
            symbol: self.symbol.clone(),
            last_price: cents_string(self.anchor_cents as i128),
            bids: bid_rows,
            asks: ask_rows,
            best_bid,
            best_ask,
            spread,
            mid,
            max_qty,
            last_trade,
            last_trade_qty: self.last_trade_qty,
            volume: self.volume,
            trades: self.trades,
        }
    }
}

} // verus!
