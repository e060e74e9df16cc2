use std::str::FromStr;

use rust_decimal::Decimal;
use yahoo_finance_api::extract::{extract_payload, stores};
use yahoo_finance_api::financials::{parse_iso_date, CalendarDate};
use yahoo_finance_api::statistics::{FinancialData, KeyStatistics};
use yahoo_finance_api::timeseries::timeseries_fields;
use yahoo_finance_api::tolerant::{
    DecimalNumber, DecimalValue, IntegerValue, OffsetDateTimeValue, TolerantValue,
};
use yahoo_finance_api::{
    FinancialsPeriod, JsonNumber, JsonValue, YFinancialsResponse, YResponse, YStatisticsResponse,
    YahooConnector, YahooError,
};

fn number(n: &serde_json::Number) -> JsonNumber<f64> {
    let float = n.as_f64().unwrap();
    let text = match (n.as_i64(), n.as_u64()) {
        (Some(i), _) => i.to_string(),
        (None, Some(u)) => u.to_string(),
        _ => float.to_string(),
    };
    JsonNumber { int: n.as_i64(), uint: n.as_u64(), float, text }
}

fn to_json(v: &serde_json::Value) -> JsonValue<f64> {
    match v {
        serde_json::Value::Null => JsonValue::Null,
        serde_json::Value::Bool(b) => JsonValue::Bool(*b),
        serde_json::Value::Number(n) => JsonValue::Number(number(n)),
        serde_json::Value::String(s) => JsonValue::Str(s.clone()),
        serde_json::Value::Array(a) => JsonValue::Array(a.iter().map(to_json).collect()),
        serde_json::Value::Object(m) => {
            JsonValue::Object(m.iter().map(|(k, v)| (k.clone(), to_json(v))).collect())
        }
    }
}

fn dec(text: &str) -> DecimalNumber {
    let d = Decimal::from_str(text).unwrap();
    DecimalNumber { mantissa: d.mantissa(), scale: d.scale() }
}

fn doc(text: &str) -> JsonValue<f64> {
    to_json(&serde_json::from_str::<serde_json::Value>(text).unwrap())
}

fn chart(body: &str) -> JsonValue<f64> {
    doc(&format!("{{\"chart\":{{\"result\":[{}],\"error\":null}}}}", body))
}

const META: &str = "\"meta\":{\"symbol\":\"IBM\",\"currency\":\"USD\",\"range\":\"1mo\",\"dataGranularity\":\"1d\",\"gmtoffset\":-14400,\"firstTradeDate\":-252322200}";

#[test]
fn tolerant_integer_decoding() {
    assert_eq!(IntegerValue::from_json(&doc("{\"raw\": 5}")), Ok(IntegerValue(Some(5))));
    assert_eq!(IntegerValue::from_json(&doc("{\"raw\": null}")), Ok(IntegerValue(None)));
    assert_eq!(IntegerValue::from_json(&doc("{}")), Ok(IntegerValue(None)));
    assert_eq!(IntegerValue::from_json(&doc("{\"raw\": \"x\"}")), Err(YahooError::TypeMismatch));
    assert_eq!(IntegerValue::from_json(&doc("{\"raw\": 1.5}")), Err(YahooError::TypeMismatch));
    assert_eq!(IntegerValue::from_json(&doc("[5]")), Err(YahooError::TypeMismatch));
    assert_eq!(
        IntegerValue::from_json(&doc("{\"fmt\": \"5\", \"raw\": 7}")),
        Ok(IntegerValue(Some(7)))
    );
}

#[test]
fn tolerant_decimal_decoding() {
    let d = DecimalValue::from_json(&doc("{\"raw\": 0.5}")).unwrap();
    assert_eq!(d.0, Some(dec("0.5")));
    assert_eq!(d.0, Some(DecimalNumber { mantissa: 5, scale: 1 }));
    let d = DecimalValue::from_json(&doc("{\"raw\": 5}")).unwrap();
    assert_eq!(d, DecimalValue(Some(DecimalNumber { mantissa: 5, scale: 0 })));
    let d = Decimal::from_i128_with_scale(d.0.unwrap().mantissa, d.0.unwrap().scale);
    assert_eq!(d, Decimal::from(5));
    let d = DecimalValue::from_json(&doc("{\"raw\": -12.75}")).unwrap();
    assert_eq!(d.0, Some(DecimalNumber { mantissa: -1275, scale: 2 }));
    assert!(DecimalValue::from_json(&doc("{\"raw\": null}")).unwrap().0.is_none());
    assert!(DecimalValue::from_json(&doc("{}")).unwrap().0.is_none());
    assert_eq!(
        DecimalValue::from_json(&doc("{\"raw\": \"x\"}")).err(),
        Some(YahooError::TypeMismatch)
    );
}

#[test]
fn tolerant_timestamp_decoding() {
    assert_eq!(
        OffsetDateTimeValue::from_json(&doc("{\"raw\": 1700000000}")),
        Ok(OffsetDateTimeValue(Some(1700000000)))
    );
    assert_eq!(
        OffsetDateTimeValue::from_json(&doc("{\"raw\": 253402300800}")),
        Ok(OffsetDateTimeValue(None))
    );
    assert_eq!(
        OffsetDateTimeValue::from_json(&doc("{\"raw\": 253402300799}")),
        Ok(OffsetDateTimeValue(Some(253402300799)))
    );
    assert_eq!(
        OffsetDateTimeValue::from_json(&doc("{\"raw\": -377705116801}")),
        Ok(OffsetDateTimeValue(None))
    );
    assert_eq!(OffsetDateTimeValue::from_json(&doc("{}")), Ok(OffsetDateTimeValue(None)));
    assert_eq!(
        OffsetDateTimeValue::from_json(&doc("{\"raw\": \"soon\"}")),
        Err(YahooError::TypeMismatch)
    );
}

fn chart_with_close(close: &str) -> String {
    format!(
        "{{{},\"timestamp\":[1,2,3],\"indicators\":{{\"quote\":[{{\"open\":[1.0,2.0,3.0],\"high\":[1.0,2.0,3.0],\"low\":[1.0,2.0,3.0],\"close\":{},\"volume\":[10,20,30]}}],\"adjclose\":[{{\"adjclose\":[1.0,2.0,3.0]}}]}}}}",
        META, close
    )
}

#[test]
fn chart_document_round_trip() {
    let r = YResponse::from_json(&chart(&chart_with_close("[10.0,null,12.0]"))).unwrap();
    assert_eq!(r.chart.result[0].meta.symbol, "IBM");
    assert_eq!(r.chart.result[0].meta.first_trade_date, -252322200);
    let quotes = r.quotes().unwrap();
    assert_eq!(quotes.len(), 2);
    assert_eq!(quotes[0].timestamp, 1);
    assert_eq!(quotes[1].timestamp, 3);
    assert_eq!(r.last_quote().unwrap().timestamp, 3);
    assert_eq!(r.last_quote().unwrap().close, 12.0);
}

#[test]
fn chart_dividends_scenario() {
    let body = format!(
        "{{{},\"timestamp\":[1,2],\"indicators\":{{\"quote\":[{{\"open\":[1,2],\"high\":[1,2],\"low\":[1,2],\"close\":[1,2],\"volume\":[1,2]}}],\"adjclose\":[{{\"adjclose\":[1,2]}}]}},\"events\":{{\"dividends\":{{\"2\":{{\"amount\":0.5,\"date\":2}}}}}}}}",
        META
    );
    let r = YResponse::from_json(&chart(&body)).unwrap();
    let d = r.dividends();
    assert_eq!(d.len(), 1);
    assert_eq!(d[0].amount, 0.5);
    assert_eq!(d[0].date, 2);
    assert!(r.splits().is_empty());

    let r = YResponse::from_json(&chart(&chart_with_close("[1,2,3]"))).unwrap();
    assert!(r.dividends().is_empty());
}

#[test]
fn chart_splits_are_read() {
    let body = format!(
        "{{{},\"timestamp\":[],\"events\":{{\"splits\":{{\"9\":{{\"date\":9,\"numerator\":4,\"denominator\":1,\"splitRatio\":\"4:1\"}},\"3\":{{\"date\":3,\"numerator\":2,\"denominator\":1}}}}}}}}",
        META
    );
    let r = YResponse::from_json(&chart(&body)).unwrap();
    let s = r.splits();
    assert_eq!(s.len(), 2);
    assert_eq!(s[0].date, 3);
    assert_eq!(s[1].numerator, 4.0);
    assert_eq!(r.quotes(), Ok(vec![]));
}

#[test]
fn chart_schema_mismatch() {
    assert_eq!(YResponse::from_json(&doc("{\"chart\":{\"result\":[]}}")).err(), Some(YahooError::SchemaMismatch));
    assert_eq!(YResponse::from_json(&doc("{\"chart\":{\"result\":null,\"error\":{\"code\":\"Not Found\"}}}")).err(), Some(YahooError::SchemaMismatch));
    assert_eq!(YResponse::from_json(&chart("{\"timestamp\":[1]}")).err(), Some(YahooError::SchemaMismatch));
    assert_eq!(YResponse::from_json(&chart(&format!("{{{}}}", META))).err(), Some(YahooError::SchemaMismatch));
    assert_eq!(
        YResponse::from_json(&chart(&chart_with_close("[1.0,2.0]"))).err(),
        Some(YahooError::SchemaMismatch)
    );
    assert_eq!(
        YResponse::from_json(&chart(&chart_with_close("[1.0,\"2\",3.0]"))).err(),
        Some(YahooError::SchemaMismatch)
    );
}

#[test]
fn chart_without_adjclose_is_missing_field() {
    let body = format!(
        "{{{},\"timestamp\":[1,2],\"indicators\":{{\"quote\":[{{\"open\":[1,2],\"high\":[1,2],\"low\":[1,2],\"close\":[1,2],\"volume\":[1,2]}}]}}}}",
        META
    );
    let r = YResponse::from_json(&chart(&body)).unwrap();
    assert_eq!(r.quotes(), Err(YahooError::MissingField));
    assert_eq!(r.last_quote(), Err(YahooError::MissingField));
}

#[test]
fn html_extraction_scenario() {
    let html = "<script>root.App.main = {\"context\":{\"dispatcher\":{\"stores\":{\"X\":1}}}};\n}(this));</script>";
    let payload = extract_payload(html).unwrap();
    let parsed = to_json(&serde_json::from_slice::<serde_json::Value>(&payload).unwrap());
    let s = stores(&parsed).unwrap();
    match s.get("X") {
        Some(JsonValue::Number(n)) => assert_eq!(n.int, Some(1)),
        _ => panic!("stores should hold X"),
    }
    match s {
        JsonValue::Object(m) => assert_eq!(m.len(), 1),
        _ => panic!("stores should be an object"),
    }
    assert_eq!(extract_payload("<html>no data</html>"), Err(YahooError::MarkerNotFound));
    assert_eq!(extract_payload("root.App.main = {}"), Err(YahooError::MalformedDocument));
    assert_eq!(extract_payload("x root.App.main =   {\"a\":1} \t;\n"), Ok(b"{\"a\":1}".to_vec()));
    assert_eq!(stores(&doc("{\"context\":{\"dispatcher\":{}}}")).err(), Some(YahooError::SchemaMismatch));
}

#[test]
fn extraction_trims_unicode_whitespace() {
    let html = "root.App.main = \u{a0}\u{3000}\u{b}{\"a\":1}\u{2029}\u{85} ;\n";
    assert_eq!(extract_payload(html), Ok(b"{\"a\":1}".to_vec()));
    let inner = "root.App.main = [1,\u{a0}2];\n";
    assert_eq!(extract_payload(inner), Ok("[1,\u{a0}2]".as_bytes().to_vec()));
    assert_eq!(extract_payload("root.App.main = \u{2003};\n"), Ok(vec![]));
    for (text, trimmed) in [(" \u{a0}x\u{202f}", "x"), ("\u{1680}é\t", "é")] {
        let page = format!("root.App.main = {};\n", text);
        assert_eq!(extract_payload(&page), Ok(text.trim().as_bytes().to_vec()));
        assert_eq!(text.trim(), trimmed);
    }
}

#[test]
fn key_statistics_decoding() {
    let stats = YStatisticsResponse::from_json(&doc(
        "{\"QuoteSummaryStore\":{\"defaultKeyStatistics\":{\"enterpriseValue\":{\"raw\":1000,\"fmt\":\"1k\"},\"floatShares\":{},\"priceToBook\":{\"raw\":1.25},\"mostRecentQuarter\":{\"raw\":1656547200},\"trailingEps\":null},\"financialData\":null}}",
    ))
    .unwrap();
    let store = stats.quote_summary_store.unwrap();
    let k = store.default_key_statistics;
    assert_eq!(k.enterprise_value, Some(IntegerValue(Some(1000))));
    assert_eq!(k.float_shares, Some(IntegerValue(None)));
    assert_eq!(k.price_to_book.unwrap().0, Some(dec("1.25")));
    assert_eq!(k.most_recent_quarter, Some(OffsetDateTimeValue(Some(1656547200))));
    assert!(k.trailing_eps.is_none());
    assert!(k.total_assets.is_none());
    assert!(store.financial_data.is_none());

    assert!(YStatisticsResponse::from_json(&doc("{}")).unwrap().quote_summary_store.is_none());
    assert_eq!(
        KeyStatistics::from_json(&doc("{\"totalAssets\":{\"raw\":\"big\"}}")).err(),
        Some(YahooError::TypeMismatch)
    );
}

#[test]
fn financial_data_decoding() {
    let full = "{\"debtToEquity\":{\"raw\":0.5},\"ebitda\":{\"raw\":10},\"financialCurrency\":\"AUD\",\"freeCashflow\":{\"raw\":-3},\"operatingCashflow\":{},\"quickRatio\":{\"raw\":1},\"returnOnAssets\":{\"raw\":0.1},\"totalCash\":{\"raw\":4},\"totalDebt\":{\"raw\":5},\"totalRevenue\":{\"raw\":6}}";
    let d = FinancialData::from_json(&doc(full)).unwrap();
    assert_eq!(d.ebitda, IntegerValue(Some(10)));
    assert_eq!(d.free_cashflow, IntegerValue(Some(-3)));
    assert_eq!(d.operating_cashflow, IntegerValue(None));
    assert_eq!(d.financial_currency, Some("AUD".to_string()));
    assert!(d.current_ratio.is_none());
    assert_eq!(d.debt_to_equity, DecimalValue(Some(dec("0.5"))));
    let partial = "{\"debtToEquity\":{\"raw\":0.5},\"ebitda\":null}";
    let d = FinancialData::from_json(&doc(partial)).unwrap();
    assert_eq!(d.debt_to_equity, DecimalValue(Some(dec("0.5"))));
    assert_eq!(d.ebitda, IntegerValue(None));
    assert_eq!(d.total_revenue, IntegerValue(None));
    assert_eq!(d.quick_ratio, DecimalValue(None));
    assert_eq!(
        FinancialData::from_json(&doc("{\"ebitda\":{\"raw\":\"x\"}}")).err(),
        Some(YahooError::TypeMismatch)
    );
    assert_eq!(FinancialData::from_json(&doc("[]")).err(), Some(YahooError::TypeMismatch));
}

#[test]
fn financial_data_members_may_be_missing() {
    let stats = YStatisticsResponse::from_json(&doc(
        "{\"QuoteSummaryStore\":{\"defaultKeyStatistics\":{},\"financialData\":{\"currentRatio\":{\"raw\":1.5}}}}",
    ))
    .unwrap();
    let d = stats.quote_summary_store.unwrap().financial_data.unwrap();
    assert_eq!(d.current_ratio, Some(DecimalValue(Some(dec("1.5")))));
    assert_eq!(d.debt_to_equity, DecimalValue(None));
    assert_eq!(d.ebitda, IntegerValue(None));
    assert_eq!(d.free_cashflow, IntegerValue(None));
    assert_eq!(d.operating_cashflow, IntegerValue(None));
    assert_eq!(d.quick_ratio, DecimalValue(None));
    assert_eq!(d.return_on_assets, DecimalValue(None));
    assert_eq!(d.total_cash, IntegerValue(None));
    assert_eq!(d.total_debt, IntegerValue(None));
    assert_eq!(d.total_revenue, IntegerValue(None));
    assert!(d.financial_currency.is_none());
}

#[test]
fn fundamentals_take_the_latest_reported_value() {
    let f = YFinancialsResponse::from_json(&doc(
        "{\"QuoteTimeSeriesStore\":{\"timeSeries\":{\"annualBasicAverageShares\":[{\"asOfDate\":\"2020-06-30\",\"currencyCode\":\"AUD\",\"reportedValue\":{\"raw\":100}},{\"asOfDate\":\"2021-06-30\",\"currencyCode\":\"AUD\",\"reportedValue\":{\"raw\":120}},null]}}}",
    ))
    .unwrap();
    assert_eq!(f.shares_on_issue(), Some(120));
    let ts = f.quote_time_series_store.time_series.as_ref().unwrap();
    assert_eq!(
        ts.annual_basic_average_shares[0].as_ref().unwrap().as_of_date,
        CalendarDate { year: 2020, month: 6, day: 30 }
    );

    let f = YFinancialsResponse::from_json(&doc(
        "{\"QuoteTimeSeriesStore\":{\"timeSeries\":{\"annualBasicAverageShares\":[{\"asOfDate\":\"2020-06-30\",\"currencyCode\":\"AUD\",\"reportedValue\":{\"raw\":100}},{\"asOfDate\":\"2021-06-30\",\"currencyCode\":\"AUD\",\"reportedValue\":{\"raw\":null}},{\"asOfDate\":\"2022-06-30\",\"currencyCode\":\"AUD\"}]}}}",
    ))
    .unwrap();
    assert_eq!(f.shares_on_issue(), Some(100));
    assert_eq!(
        YFinancialsResponse::from_json(&doc(
            "{\"QuoteTimeSeriesStore\":{\"timeSeries\":{\"annualBasicAverageShares\":[\"soon\"]}}}"
        ))
        .err(),
        Some(YahooError::TypeMismatch)
    );

    let empty = YFinancialsResponse::from_json(&doc("{\"QuoteTimeSeriesStore\":{}}")).unwrap();
    assert_eq!(empty.shares_on_issue(), None);
    assert_eq!(YFinancialsResponse::from_json(&doc("{}")).err(), Some(YahooError::MissingField));
}

#[test]
fn iso_dates() {
    assert_eq!(parse_iso_date("2024-02-29"), Some(CalendarDate { year: 2024, month: 2, day: 29 }));
    assert_eq!(parse_iso_date("2023-02-29"), None);
    assert_eq!(parse_iso_date("2023-13-01"), None);
    assert_eq!(parse_iso_date("2023-1-01"), None);
    assert_eq!(parse_iso_date("1900-02-29"), None);
    assert_eq!(parse_iso_date("2000-02-29"), Some(CalendarDate { year: 2000, month: 2, day: 29 }));
    assert_eq!(parse_iso_date("+2021-06-30"), Some(CalendarDate { year: 2021, month: 6, day: 30 }));
    assert_eq!(parse_iso_date("-0044-03-15"), Some(CalendarDate { year: -44, month: 3, day: 15 }));
    assert_eq!(parse_iso_date("-2023-02-29"), None);
    assert_eq!(parse_iso_date("--2023-01-01"), None);
    assert_eq!(parse_iso_date(""), None);
}

#[test]
fn timeseries_pairs_and_replaces() {
    let d = doc(
        "{\"timeseries\":{\"result\":[{\"meta\":{\"type\":[\"annualTotalAssets\"]},\"timestamp\":[10,20,30],\"annualTotalAssets\":[{\"reportedValue\":{\"raw\":1.5}},{\"reportedValue\":{\"raw\":2.5}}]},{\"meta\":{\"type\":[\"annualGoodwill\"]}},{\"meta\":{\"type\":[\"annualTotalAssets\"]},\"timestamp\":[40],\"annualTotalAssets\":[{\"reportedValue\":{\"raw\":9}}]}]}}",
    );
    let f = timeseries_fields(&d).unwrap();
    assert_eq!(f.len(), 2);
    assert_eq!(f[0].0, "annualTotalAssets");
    assert_eq!(f[0].1, vec![(40, 9.0)]);
    assert_eq!(f[1].0, "annualGoodwill");
    assert!(f[1].1.is_empty());
    assert_eq!(timeseries_fields(&doc("{}")).err(), Some(YahooError::SchemaMismatch));
}

#[test]
fn connector_endpoints() {
    let c = YahooConnector::new();
    assert_eq!(c.url(), "https://query1.finance.yahoo.com/v8/finance/chart");
    assert_eq!(c.search_url(), "https://query2.finance.yahoo.com/v1/finance/search");
    assert_ne!(FinancialsPeriod::Annual, FinancialsPeriod::Quarterly);
}
