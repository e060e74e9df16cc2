use yahoo_finance_api::{
    Dividend, QuoteBlock, Split, YMetaData, YQuoteBlock, YahooError,
};

fn meta() -> YMetaData {
    YMetaData {
        symbol: "TEST".to_string(),
        currency: "USD".to_string(),
        range: "1mo".to_string(),
        data_granularity: "1d".to_string(),
        gmtoffset: 0,
        first_trade_date: 0,
    }
}

fn full(n: usize, base: f64) -> Option<Vec<Option<f64>>> {
    Some((0..n).map(|i| Some(base + i as f64)).collect())
}

fn block(timestamp: Vec<i64>, indicators: QuoteBlock<f64>) -> YQuoteBlock<f64> {
    YQuoteBlock { meta: meta(), timestamp, indicators, dividends: vec![], splits: vec![] }
}

fn complete(n: usize) -> QuoteBlock<f64> {
    QuoteBlock {
        open: full(n, 1.0),
        high: full(n, 2.0),
        low: full(n, 0.5),
        close: full(n, 1.5),
        volume: Some((0..n).map(|i| Some(100 + i as u64)).collect()),
        adjclose: full(n, 1.4),
    }
}

#[test]
fn round_trip_drops_the_null_close() {
    let mut ind = complete(3);
    ind.close = Some(vec![Some(10.0), None, Some(12.0)]);
    let c = block(vec![1, 2, 3], ind);
    let quotes = c.quotes().unwrap();
    assert_eq!(quotes.len(), 2);
    assert_eq!(quotes[0].timestamp, 1);
    assert_eq!(quotes[0].close, 10.0);
    assert_eq!(quotes[1].timestamp, 3);
    assert_eq!(quotes[1].close, 12.0);
    assert_eq!(quotes[1].open, 3.0);
    assert_eq!(quotes[1].volume, 102);
    let last = c.last_quote().unwrap();
    assert_eq!(last.timestamp, 3);
    assert_eq!(last.close, 12.0);
}

#[test]
fn missing_adjclose_is_missing_field() {
    let mut ind = complete(2);
    ind.adjclose = None;
    let c = block(vec![1, 2], ind);
    assert_eq!(c.quotes(), Err(YahooError::MissingField));
    assert_eq!(c.last_quote(), Err(YahooError::MissingField));
}

#[test]
fn missing_arrays_without_timestamps_give_no_quotes() {
    let ind = QuoteBlock { open: None, high: None, low: None, close: None, volume: None, adjclose: None };
    let c = block(vec![], ind);
    assert_eq!(c.quotes(), Ok(vec![]));
    assert_eq!(c.last_quote(), Err(YahooError::NoValidQuote));
}

#[test]
fn all_null_closes_give_no_valid_quote() {
    let mut ind = complete(3);
    ind.close = Some(vec![None, None, None]);
    let c = block(vec![1, 2, 3], ind);
    assert_eq!(c.quotes(), Ok(vec![]));
    assert_eq!(c.last_quote(), Err(YahooError::NoValidQuote));
}

#[test]
fn each_excluded_index_has_a_null_field() {
    let mut ind = complete(6);
    ind.open.as_mut().unwrap()[0] = None;
    ind.high.as_mut().unwrap()[1] = None;
    ind.low.as_mut().unwrap()[2] = None;
    ind.volume.as_mut().unwrap()[3] = None;
    ind.adjclose.as_mut().unwrap()[4] = None;
    let c = block(vec![10, 20, 30, 40, 50, 60], ind);
    let quotes = c.quotes().unwrap();
    assert_eq!(quotes.len(), 1);
    assert_eq!(quotes[0].timestamp, 60);
    assert!(quotes.len() <= c.timestamp.len());
}

#[test]
fn last_quote_skips_trailing_placeholders() {
    let mut ind = complete(4);
    ind.close = Some(vec![Some(1.0), Some(2.0), None, None]);
    let c = block(vec![5, 6, 7, 8], ind);
    let last = c.last_quote().unwrap();
    assert_eq!(last.timestamp, 6);
    assert_eq!(last.close, 2.0);
    assert_eq!(last, *c.quotes().unwrap().last().unwrap());
}

#[test]
fn last_quote_has_the_largest_timestamp() {
    let c = block(vec![3, 5, 5, 9], complete(4));
    let quotes = c.quotes().unwrap();
    let last = c.last_quote().unwrap();
    assert!(quotes.iter().all(|q| q.timestamp <= last.timestamp));
    assert_eq!(last.timestamp, 9);
}

#[test]
fn dividends_and_splits_come_by_date() {
    let mut c = block(vec![1, 2, 3], complete(3));
    c.dividends = vec![
        Dividend { amount: 0.3, date: 30 },
        Dividend { amount: 0.1, date: 10 },
        Dividend { amount: 0.2, date: 20 },
    ];
    c.splits = vec![
        Split { date: 7, numerator: 2.0, denominator: 1.0 },
        Split { date: 3, numerator: 4.0, denominator: 1.0 },
    ];
    let d = c.dividends();
    assert_eq!(d.iter().map(|x| x.date).collect::<Vec<_>>(), vec![10, 20, 30]);
    assert_eq!(d[0].amount, 0.1);
    let s = c.splits();
    assert_eq!(s.iter().map(|x| x.date).collect::<Vec<_>>(), vec![3, 7]);
    assert_eq!(s[0].numerator, 4.0);
}

#[test]
fn no_events_give_empty_sequences() {
    let c = block(vec![1], complete(1));
    assert!(c.dividends().is_empty());
    assert!(c.splits().is_empty());
}

#[test]
fn quote_at_index_is_all_or_nothing() {
    let mut ind = complete(2);
    ind.high.as_mut().unwrap()[1] = None;
    let c = block(vec![1, 2], ind);
    assert!(c.quote_at_index(0).is_some());
    assert!(c.quote_at_index(1).is_none());
}
