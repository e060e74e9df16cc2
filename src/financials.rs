use vstd::prelude::*;

use crate::error::YahooError;
use crate::json::{field, non_null_field, JsonValue};
use crate::series::{latest_index, latest_present, lemma_latest_index};

verus! {

/// A day of the proleptic Gregorian calendar.
#[derive(Debug, Clone, Copy, PartialEq, Eq)]
pub struct CalendarDate {
    pub year: i32,
    pub month: u8,
    pub day: u8,
}

pub open spec fn is_leap_year(y: int) -> bool {
    (y % 4 == 0 && y % 100 != 0) || y % 400 == 0
}

pub open spec fn days_in_month(y: int, m: int) -> int {
    if m == 2 {
        if is_leap_year(y) {
            29
        } else {
            28
        }
    } else if m == 4 || m == 6 || m == 9 || m == 11 {
        30
    } else {
        31
    }
}

/// A date that `time` represents: years -9999 to 9999, months 1 to 12, and
/// days within the month.
pub open spec fn date_exists(y: int, m: int, d: int) -> bool {
    -9999 <= y <= 9999 && 1 <= m <= 12 && 1 <= d <= days_in_month(y, m)
}

/// Relies on `time::Month::try_from`, which accepts months 1 to 12, and on
/// `time::Date::from_calendar_date`, which without the `large-dates` feature
/// accepts years -9999 to 9999 and the days of the Gregorian month.
#[verifier::external_body]
fn calendar_date_exists(year: i32, month: u8, day: u8) -> (r: bool)
    ensures
        r == date_exists(year as int, month as int, day as int),
{
    match time::Month::try_from(month) {
        Ok(m) => time::Date::from_calendar_date(year, m, day).is_ok(),
        Err(_) => false,
    }
}

/// The value of a decimal digit.
pub open spec fn digit(c: char) -> Option<int> {
    if '0' <= c <= '9' {
        Some(c as int - '0' as int)
    } else {
        None
    }
}

/// The number written by the digits `s[from..to]`, most significant first.
pub open spec fn digits_value(s: Seq<char>, from: int, to: int) -> int
    decreases to - from,
{
    if to <= from {
        0
    } else {
        digits_value(s, from, to - 1) * 10 + digit(s[to - 1]).unwrap()
    }
}

/// `s[from..to]` is all digits.
pub open spec fn all_digits(s: Seq<char>, from: int, to: int) -> bool {
    forall|i: int| from <= i < to ==> #[trigger] digit(s[i]) is Some
}

/// The year, month and day written `YYYY-MM-DD` with four, two and two
/// digits.
pub open spec fn date_digits(s: Seq<char>) -> Option<(int, int, int)> {
    if s.len() == 10 && s[4] == '-' && s[7] == '-' && all_digits(s, 0, 4) && all_digits(s, 5, 7)
        && all_digits(s, 8, 10) {
        Some((digits_value(s, 0, 4), digits_value(s, 5, 7), digits_value(s, 8, 10)))
    } else {
        None
    }
}

/// The text after an optional leading `+` or `-`.
pub open spec fn unsigned_part(s: Seq<char>) -> Seq<char> {
    if s.len() > 0 && (s[0] == '+' || s[0] == '-') {
        s.drop_first()
    } else {
        s
    }
}

/// The date written `[+-]YYYY-MM-DD`, when it exists; a leading `-` makes
/// the year negative.
pub open spec fn iso_date(s: Seq<char>) -> Option<CalendarDate> {
    match date_digits(unsigned_part(s)) {
        Some((y, m, d)) => {
            let year = if s[0] == '-' {
                -y
            } else {
                y
            };
            if date_exists(year, m, d) {
                Some(CalendarDate { year: year as i32, month: m as u8, day: d as u8 })
            } else {
                None
            }
        },
        None => None,
    }
}

/// The number written by `s[from..to]`, if every character is a digit.
fn read_digits(s: &str, from: usize, to: usize) -> (r: Option<u32>)
    requires
        from <= to <= s@.len(),
        to - from <= 4,
    ensures
        r is Some <==> all_digits(s@, from as int, to as int),
        r matches Some(v) ==> v as int == digits_value(s@, from as int, to as int),
        r matches Some(v) ==> v < pow10((to - from) as nat),
{
    let mut v: u32 = 0;
    let mut i: usize = from;
    while i < to
        invariant
            from <= i <= to <= s@.len(),
            to - from <= 4,
            all_digits(s@, from as int, i as int),
            v as int == digits_value(s@, from as int, i as int),
            0 <= v < pow10((i - from) as nat),
            pow10((i - from) as nat) <= 10000,
        decreases to - i,
    {
        let c = s.get_char(i);
        if c < '0' || c > '9' {
            assert(digit(s@[i as int]) is None);
            return None;
        }
        proof {
            lemma_pow10_step(0);
            lemma_pow10_step(1);
            lemma_pow10_step(2);
            lemma_pow10_step((i - from) as nat);
            assert(pow10((i - from) as nat) <= 1000);
        }
        v = v * 10 + (c as u32 - '0' as u32);
        i = i + 1;
    }
    proof {
        lemma_pow10_step(0);
        lemma_pow10_step(1);
        lemma_pow10_step(2);
        lemma_pow10_step(3);
    }
    Some(v)
}

pub open spec fn pow10(n: nat) -> int
    decreases n,
{
    if n == 0 {
        1
    } else {
        10 * pow10((n - 1) as nat)
    }
}

proof fn lemma_pow10_step(n: nat)
    ensures
        pow10(n + 1) == 10 * pow10(n),
        pow10(n) >= 1,
    decreases n,
{
    if n > 0 {
        lemma_pow10_step((n - 1) as nat);
    }
}

/// Reads the digits of a date written `YYYY-MM-DD`.
fn read_date_digits(s: &str) -> (r: Option<(u32, u32, u32)>)
    ensures
        r is Some <==> date_digits(s@) is Some,
        r matches Some(t) ==> date_digits(s@) == Some((t.0 as int, t.1 as int, t.2 as int)),
        r matches Some(t) ==> t.0 < 10000 && t.1 < 100 && t.2 < 100,
{
    if s.unicode_len() != 10 || s.get_char(4) != '-' || s.get_char(7) != '-' {
        return None;
    }
    let y = read_digits(s, 0, 4);
    let m = read_digits(s, 5, 7);
    let d = read_digits(s, 8, 10);
    proof {
        lemma_pow10_step(0);
        lemma_pow10_step(1);
        lemma_pow10_step(2);
        lemma_pow10_step(3);
    }
    match (y, m, d) {
        (Some(y), Some(m), Some(d)) => Some((y, m, d)),
        _ => None,
    }
}

/// Reads a date written `YYYY-MM-DD`, with an optional sign before the year;
/// `None` when the text has another shape or names no existing day.
pub fn parse_iso_date(s: &str) -> (r: Option<CalendarDate>)
    ensures
        r == iso_date(s@),
{
    let n = s.unicode_len();
    let negative = n > 0 && s.get_char(0) == '-';
    let body = if n > 0 && (s.get_char(0) == '+' || s.get_char(0) == '-') {
        s.substring_char(1, n)
    } else {
        s
    };
    assert(body@ =~= unsigned_part(s@));
    match read_date_digits(body) {
        Some((y, m, d)) => {
            let year: i32 = if negative {
                -(y as i32)
            } else {
                y as i32
            };
            if calendar_date_exists(year, m as u8, d as u8) {
                Some(CalendarDate { year, month: m as u8, day: d as u8 })
            } else {
                None
            }
        },
        None => None,
    }
}

/// A value as the provider reported it.
#[derive(Debug, Clone, Copy, PartialEq, Eq)]
pub struct ReportedValue {
    pub raw: i64,
}

/// The average number of shares of one fiscal year.
#[derive(Debug, Clone)]
pub struct AnnualBasicAverageShares {
    pub as_of_date: CalendarDate,
    pub currency_code: String,
    pub reported_value: ReportedValue,
}

/// The reported series of the fundamentals page; a period not yet reported
/// is `None`.
#[derive(Debug)]
pub struct TimeSeries {
    pub annual_basic_average_shares: Vec<Option<AnnualBasicAverageShares>>,
}

#[derive(Debug)]
pub struct YQuoteTimeSeriesStore {
    pub time_series: Option<TimeSeries>,
}

/// The stores of the fundamentals page.
#[derive(Debug)]
pub struct YFinancialsResponse {
    pub quote_time_series_store: YQuoteTimeSeriesStore,
}

/// A reported entry: its date, currency and raw value, when each member
/// has its type.
pub open spec fn entry_of<F>(x: JsonValue<F>) -> Option<(CalendarDate, Seq<char>, i64)> {
    match (field(x, "asOfDate"@), field(x, "currencyCode"@), field(x, "reportedValue"@)) {
        (Some(JsonValue::Str(d)), Some(JsonValue::Str(c)), Some(rv)) => match (
            iso_date(d@),
            field(rv, "raw"@),
        ) {
            (Some(date), Some(JsonValue::Number(n))) => match n.int {
                Some(raw) => Some((date, c@, raw)),
                None => None,
            },
            _ => None,
        },
        _ => None,
    }
}

/// `e` holds the entry `t`.
pub open spec fn entry_matches(e: AnnualBasicAverageShares, t: (CalendarDate, Seq<char>, i64)) -> bool {
    e.as_of_date == t.0 && e.currency_code@ == t.1 && e.reported_value.raw == t.2
}

/// An entry whose reported value, or its `raw` member, is absent or null:
/// a period not yet reported.
pub open spec fn unreported<F>(x: JsonValue<F>) -> bool {
    x is Object && match non_null_field(x, "reportedValue"@) {
        None => true,
        Some(rv) => non_null_field(rv, "raw"@) is None,
    }
}

/// A cell of a reported series: null or an unreported entry for a period not
/// yet reported, or a well-formed entry.
pub open spec fn series_cell_ok<F>(x: JsonValue<F>) -> bool {
    x is Null || unreported(x) || entry_of(x) is Some
}

/// `o` is the decoded cell `x`.
pub open spec fn series_cell_decodes<F>(x: JsonValue<F>, o: Option<AnnualBasicAverageShares>) -> bool {
    match o {
        None => x is Null || unreported(x),
        Some(e) => entry_of(x) matches Some(t) && entry_matches(e, t),
    }
}

fn is_unreported<F>(x: &JsonValue<F>) -> (r: bool)
    ensures
        r == unreported(*x),
{
    match x {
        JsonValue::Object(_) => match x.get_non_null("reportedValue") {
            None => true,
            Some(rv) => rv.get_non_null("raw").is_none(),
        },
        _ => false,
    }
}

fn decode_entry<F>(x: &JsonValue<F>) -> (r: Option<AnnualBasicAverageShares>)
    ensures
        r is Some <==> entry_of(*x) is Some,
        r matches Some(e) ==> entry_matches(e, entry_of(*x).unwrap()),
{
    match (x.get("asOfDate"), x.get("currencyCode"), x.get("reportedValue")) {
        (Some(JsonValue::Str(d)), Some(JsonValue::Str(c)), Some(rv)) => match (
            parse_iso_date(d.as_str()),
            rv.get("raw"),
        ) {
            (Some(date), Some(JsonValue::Number(n))) => match n.int {
                Some(raw) => Some(
                    AnnualBasicAverageShares {
                        as_of_date: date,
                        currency_code: c.clone(),
                        reported_value: ReportedValue { raw },
                    },
                ),
                None => None,
            },
            _ => None,
        },
        _ => None,
    }
}

/// The cells of the reported series `key` of `ts`: `None` when the member is
/// absent, no array, or holds a malformed cell.
pub open spec fn series_cells<F>(ts: JsonValue<F>, key: Seq<char>) -> Option<Seq<JsonValue<F>>> {
    match field(ts, key) {
        Some(JsonValue::Array(a)) => if forall|i: int|
            0 <= i < a@.len() ==> #[trigger] series_cell_ok(a@[i]) {
            Some(a@)
        } else {
            None
        },
        _ => None,
    }
}

fn decode_series<F>(a: &Vec<JsonValue<F>>) -> (r: Option<Vec<Option<AnnualBasicAverageShares>>>)
    ensures
        r is Some <==> forall|i: int| 0 <= i < a@.len() ==> #[trigger] series_cell_ok(a@[i]),
        r matches Some(c) ==> c@.len() == a@.len() && forall|i: int|
            0 <= i < a@.len() ==> series_cell_decodes(a@[i], #[trigger] c@[i]),
{
    let mut out: Vec<Option<AnnualBasicAverageShares>> = Vec::new();
    let mut i: usize = 0;
    while i < a.len()
        invariant
            i <= a@.len(),
            out@.len() == i,
            forall|j: int| 0 <= j < i ==> #[trigger] series_cell_ok(a@[j]),
            forall|j: int| 0 <= j < i ==> series_cell_decodes(a@[j], #[trigger] out@[j]),
        decreases a@.len() - i,
    {
        let cell = match &a[i] {
            JsonValue::Null => None,
            x => if is_unreported(x) {
                None
            } else {
                match decode_entry(x) {
                Some(e) => Some(e),
                None => {
                    assert(!series_cell_ok(a@[i as int]));
                    return None;
                },
            }},
        };
        out.push(cell);
        i = i + 1;
    }
    Some(out)
}

/// `r` is the outcome of decoding the fundamentals stores `v`: the
/// time-series store is required, its `timeSeries` optional, and a present
/// `timeSeries` must hold the annual series with well-formed cells.
pub open spec fn financials_outcome<F>(v: JsonValue<F>, r: Result<YFinancialsResponse, YahooError>) -> bool {
    if !(v is Object) {
        r == Err::<YFinancialsResponse, YahooError>(YahooError::TypeMismatch)
    } else {
        match field(v, "QuoteTimeSeriesStore"@) {
            None => r == Err::<YFinancialsResponse, YahooError>(YahooError::MissingField),
            Some(store) => if !(store is Object) {
                r == Err::<YFinancialsResponse, YahooError>(YahooError::TypeMismatch)
            } else {
                match non_null_field(store, "timeSeries"@) {
                    None => (r matches Ok(f) && f.quote_time_series_store.time_series is None),
                    Some(ts) => if field(ts, "annualBasicAverageShares"@) is None {
                        r == Err::<YFinancialsResponse, YahooError>(YahooError::MissingField)
                    } else {
                        match series_cells(ts, "annualBasicAverageShares"@) {
                            None => r == Err::<YFinancialsResponse, YahooError>(
                                YahooError::TypeMismatch,
                            ),
                            Some(cells) => (r matches Ok(f)
                                && f.quote_time_series_store.time_series matches Some(t) && {
                                let got = t.annual_basic_average_shares@;
                                &&& got.len() == cells.len()
                                &&& forall|i: int|
                                    0 <= i < cells.len() ==> series_cell_decodes(
                                        cells[i],
                                        #[trigger] got[i],
                                    )
                            }),
                        }
                    }
                }
            },
        }
    }
}

impl YFinancialsResponse {
    /// Decodes the stores of the fundamentals page.
    pub fn from_json<F>(v: &JsonValue<F>) -> (r: Result<YFinancialsResponse, YahooError>)
        ensures
            financials_outcome(*v, r),
    {
        if !matches!(v, JsonValue::Object(_)) {
            return Err(YahooError::TypeMismatch);
        }
        let store = match v.get("QuoteTimeSeriesStore") {
            None => {
                return Err(YahooError::MissingField);
            },
            Some(s) => s,
        };
        if !matches!(store, JsonValue::Object(_)) {
            return Err(YahooError::TypeMismatch);
        }
        let time_series = match store.get_non_null("timeSeries") {
            None => None,
            Some(ts) => match ts.get("annualBasicAverageShares") {
                None => {
                    return Err(YahooError::MissingField);
                },
                Some(JsonValue::Array(a)) => match decode_series(a) {
                    Some(cells) => Some(TimeSeries { annual_basic_average_shares: cells }),
                    None => {
                        return Err(YahooError::TypeMismatch);
                    },
                },
                Some(_) => {
                    return Err(YahooError::TypeMismatch);
                },
            },
        };
        Ok(YFinancialsResponse { quote_time_series_store: YQuoteTimeSeriesStore { time_series } })
    }

    /// The most recently reported average share count: the raw value of the
    /// last entry of the annual series that is not a placeholder for a
    /// period not yet reported; `None` when there is none.
    pub fn shares_on_issue(&self) -> (r: Option<i64>)
        ensures
            self.quote_time_series_store.time_series is None ==> r is None,
            self.quote_time_series_store.time_series matches Some(ts) ==> match latest_index(
                ts.annual_basic_average_shares@,
            ) {
                Some(i) => r == Some(
                    ts.annual_basic_average_shares@[i].unwrap().reported_value.raw,
                ),
                None => r is None,
            },
    {
        match &self.quote_time_series_store.time_series {
            None => None,
            Some(ts) => match latest_present(&ts.annual_basic_average_shares) {
                Some(i) => {
                    proof {
                        lemma_latest_index(ts.annual_basic_average_shares@);
                    }
                    match &ts.annual_basic_average_shares[i] {
                    Some(e) => Some(e.reported_value.raw),
                    None => None,
                }},
                None => None,
            },
        }
    }
}

} // verus!
