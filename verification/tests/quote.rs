use trading_eng::quote::{chart_reply_error, chart_url, normalize_ticker};

#[test]
fn ticker_is_trimmed_and_upper_cased() {
    assert_eq!(normalize_ticker("  aapl \n"), Ok("AAPL".to_string()));
    assert_eq!(normalize_ticker("btc-usd"), Ok("BTC-USD".to_string()));
}

#[test]
fn blank_ticker_is_refused() {
    assert_eq!(normalize_ticker(""), Err("empty symbol".to_string()));
    assert_eq!(normalize_ticker(" \t\n "), Err("empty symbol".to_string()));
}

#[test]
fn chart_url_names_the_ticker() {
    assert_eq!(
        chart_url("NVDA"),
        "https://query1.finance.yahoo.com/v8/finance/chart/NVDA?interval=1d&range=1d"
    );
}

#[test]
fn chart_reply_errors() {
    assert_eq!(chart_reply_error("ZZZZ", false, false).as_deref(), Some("unknown symbol: ZZZZ"));
    assert_eq!(chart_reply_error("ZZZZ", false, true).as_deref(), Some("unknown symbol: ZZZZ"));
    assert_eq!(
        chart_reply_error("AAPL", true, false).as_deref(),
        Some("no price available for AAPL")
    );
    assert_eq!(chart_reply_error("AAPL", true, true), None);
}
