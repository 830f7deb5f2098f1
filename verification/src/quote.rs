//! Loading a real ticker: normalising the symbol, the chart endpoint to ask,
//! reading its reply, and re-anchoring the book at the price it gives.

use vstd::prelude::*;
use crate::engine::{EngineState, can_anchor};
use crate::text::{ascii_upper, is_ascii_text, is_trim_of, is_white_space, trim_str, uppercase, upper_text};

verus! {

/// The ticker asked for, from the symbol typed in: trimmed and upper-cased;
/// "empty symbol" when nothing but white space was typed.
pub fn normalize_ticker(symbol: &str) -> (r: Result<String, String>)
    ensures
        r is Err <==> forall|i: int| 0 <= i < symbol@.len() ==> is_white_space(#[trigger] symbol@[i]),
        r matches Ok(t) ==> exists|m: Seq<char>|
            {
                &&& is_trim_of(m, symbol@)
                &&& t@ == upper_text(m)
                &&& is_ascii_text(symbol@) ==> t@ == m.map_values(|c: char| ascii_upper(c))
            },
        r matches Err(e) ==> e@ == "empty symbol"@,
{
    let trimmed = trim_str(symbol);
    let ticker = uppercase(trimmed);
    proof {
        let s = symbol@;
        let m = trimmed@;
        let (a, b) = choose|a: int, b: int|
            {
                &&& 0 <= a <= b <= s.len()
                &&& m == s.subrange(a, b)
                &&& forall|i: int| 0 <= i < a ==> is_white_space(#[trigger] s[i])
                &&& forall|i: int| b <= i < s.len() ==> is_white_space(#[trigger] s[i])
                &&& m.len() > 0 ==> !is_white_space(m[0]) && !is_white_space(m[m.len() - 1])
            };
        if is_ascii_text(s) {
            assert forall|i: int| 0 <= i < m.len() implies (#[trigger] m[i] as int) < 128 by {
                assert(m[i] == s[a + i]);
            }
        }
        if m.len() == 0 {
            assert forall|i: int| 0 <= i < s.len() implies is_white_space(#[trigger] s[i]) by {
                if i >= a {
                    assert(i >= b);
                }
            }
        } else {
            assert(s[a] == m[0]);
        }
    }
    if ticker.as_str().is_empty() {
        Err(String::from_str("empty symbol"))
    } else {
        Ok(ticker)
    }
}

/// The chart endpoint that serves the latest daily price of `ticker`.
pub fn chart_url(ticker: &str) -> (url: String)
    ensures
        url@ == "https://query1.finance.yahoo.com/v8/finance/chart/"@ + ticker@
            + "?interval=1d&range=1d"@,
{
    let mut url = String::from_str("https://query1.finance.yahoo.com/v8/finance/chart/");
    url.append(ticker);
    url.append("?interval=1d&range=1d");
    url
}

/// What a chart reply for `ticker` is refused with, if anything: an unknown
/// symbol when the reply carries an error, no price when it carries none.
pub fn chart_reply_error(ticker: &str, error_is_null: bool, has_price: bool) -> (e: Option<String>)
    ensures
        !error_is_null ==> (e matches Some(m) && m@ == "unknown symbol: "@ + ticker@),
        error_is_null && !has_price ==> (e matches Some(m) && m@ == "no price available for "@
            + ticker@),
        error_is_null && has_price ==> e is None,
{
    if !error_is_null {
        let mut m = String::from_str("unknown symbol: ");
        m.append(ticker);
        Some(m)
    } else if !has_price {
        let mut m = String::from_str("no price available for ");
        m.append(ticker);
        Some(m)
    } else {
        None
    }
}

impl EngineState {
    /// A fresh state for `symbol` anchored at the loaded price of
    /// `anchor_cents`; "no valid price for SYMBOL" when the price is not
    /// positive.
    pub fn reanchor(symbol: &str, anchor_cents: i64) -> (r: Result<EngineState, String>)
        requires
            anchor_cents > 0 ==> can_anchor(anchor_cents as int),
        ensures
            anchor_cents <= 0 ==> (r matches Err(e) && e@ == "no valid price for "@ + symbol@),
            anchor_cents > 0 ==> (r matches Ok(s) && s.is_fresh(symbol@, anchor_cents as int) && s.wf()),
    {
        if anchor_cents <= 0 {
            let mut e = String::from_str("no valid price for ");
            e.append(symbol);
            return Err(e);
        }
        Ok(EngineState::anchored(symbol, anchor_cents))
    }
}

} // verus!
