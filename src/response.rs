use vstd::prelude::*;

use crate::chart::{column, Dividend, QuoteBlock, Quote, Split, YMetaData, YQuoteBlock};
use crate::error::YahooError;
use crate::json::{field, non_null_field, JsonValue};

verus! {

/// A decoded chart response: one block per requested ticker.
pub struct YChart<F> {
    pub result: Vec<YQuoteBlock<F>>,
}

/// The provider's answer to a chart query.
pub struct YResponse<F> {
    pub chart: YChart<F>,
}

/// The cells of an array, if `x` is one.
pub open spec fn items<F>(x: JsonValue<F>) -> Option<Seq<JsonValue<F>>> {
    match x {
        JsonValue::Array(a) => Some(a@),
        _ => None,
    }
}

/// A price cell: a number, or null for a missing value; `None` when it is
/// neither.
pub open spec fn price_cell<F>(x: JsonValue<F>) -> Option<Option<F>> {
    match x {
        JsonValue::Null => Some(None),
        JsonValue::Number(n) => Some(Some(n.float)),
        _ => None,
    }
}

/// A volume cell: a non-negative integer, or null; `None` when it is
/// neither.
pub open spec fn volume_cell<F>(x: JsonValue<F>) -> Option<Option<u64>> {
    match x {
        JsonValue::Null => Some(None),
        JsonValue::Number(n) => match n.uint {
            Some(u) => Some(Some(u)),
            None => None,
        },
        _ => None,
    }
}

/// A timestamp cell: an integer.
pub open spec fn time_cell<F>(x: JsonValue<F>) -> Option<i64> {
    match x {
        JsonValue::Number(n) => n.int,
        _ => None,
    }
}

/// A string value.
pub open spec fn text_of<F>(x: Option<JsonValue<F>>) -> Option<Seq<char>> {
    match x {
        Some(JsonValue::Str(s)) => Some(s@),
        _ => None,
    }
}

/// An integer value.
pub open spec fn int_of<F>(x: Option<JsonValue<F>>) -> Option<i64> {
    match x {
        Some(JsonValue::Number(n)) => n.int,
        _ => None,
    }
}

/// The decoded price column `key` of the object `o`: `Ok(None)` when the
/// object or the member is absent or null, `Err` when the member is not an
/// array of price cells.
pub open spec fn price_column<F>(o: Option<JsonValue<F>>, key: Seq<char>) -> Result<
    Option<Seq<Option<F>>>,
    (),
> {
    match o {
        None => Ok(None),
        Some(obj) => match non_null_field(obj, key) {
            None => Ok(None),
            Some(x) => match items(x) {
                Some(a) => if forall|i: int| 0 <= i < a.len() ==> #[trigger] price_cell(a[i]) is Some {
                    Ok(Some(a.map_values(|c: JsonValue<F>| price_cell(c).unwrap())))
                } else {
                    Err(())
                },
                None => Err(()),
            },
        },
    }
}

/// The decoded volume column of the object `o`, as `price_column` decodes
/// prices.
pub open spec fn volume_column<F>(o: Option<JsonValue<F>>) -> Result<Option<Seq<Option<u64>>>, ()> {
    match o {
        None => Ok(None),
        Some(obj) => match non_null_field(obj, "volume"@) {
            None => Ok(None),
            Some(x) => match items(x) {
                Some(a) => if forall|i: int|
                    0 <= i < a.len() ==> #[trigger] volume_cell(a[i]) is Some {
                    Ok(Some(a.map_values(|c: JsonValue<F>| volume_cell(c).unwrap())))
                } else {
                    Err(())
                },
                None => Err(()),
            },
        },
    }
}

/// The decoded timestamps of a block: an array of integers.
pub open spec fn timestamps<F>(v: JsonValue<F>) -> Option<Seq<i64>> {
    match field(v, "timestamp"@) {
        Some(x) => match items(x) {
            Some(a) => if forall|i: int| 0 <= i < a.len() ==> #[trigger] time_cell(a[i]) is Some {
                Some(a.map_values(|c: JsonValue<F>| time_cell(c).unwrap()))
            } else {
                None
            },
            None => None,
        },
        None => None,
    }
}

/// The first object of the array `key` under `indicators`, if any.
pub open spec fn first_indicator<F>(v: JsonValue<F>, key: Seq<char>) -> Option<JsonValue<F>> {
    match non_null_field(v, "indicators"@) {
        None => None,
        Some(ind) => match non_null_field(ind, key) {
            None => None,
            Some(x) => match items(x) {
                Some(a) => if a.len() > 0 {
                    Some(a[0])
                } else {
                    None
                },
                None => None,
            },
        },
    }
}

/// A dividend entry: `{ amount, date }`.
pub open spec fn dividend_of<F>(x: JsonValue<F>) -> Option<Dividend<F>> {
    match (field(x, "amount"@), int_of(field(x, "date"@))) {
        (Some(JsonValue::Number(a)), Some(d)) => Some(Dividend { amount: a.float, date: d }),
        _ => None,
    }
}

/// A split entry: `{ date, numerator, denominator }`.
pub open spec fn split_of<F>(x: JsonValue<F>) -> Option<Split<F>> {
    match (int_of(field(x, "date"@)), field(x, "numerator"@), field(x, "denominator"@)) {
        (Some(d), Some(JsonValue::Number(n)), Some(JsonValue::Number(m))) => Some(
            Split { date: d, numerator: n.float, denominator: m.float },
        ),
        _ => None,
    }
}

/// The entries of the sparse event map `key` under `events`, in the
/// object's order: empty when either is absent or null, `None` when the map is not an
/// object of well-formed dividends.
pub open spec fn dividend_events<F>(v: JsonValue<F>) -> Option<Seq<Dividend<F>>> {
    match non_null_field(v, "events"@) {
        None => Some(Seq::empty()),
        Some(ev) => match non_null_field(ev, "dividends"@) {
            None => Some(Seq::empty()),
            Some(JsonValue::Object(m)) => if forall|i: int|
                0 <= i < m@.len() ==> #[trigger] dividend_of(m@[i].1) is Some {
                Some(m@.map_values(|e: (String, JsonValue<F>)| dividend_of(e.1).unwrap()))
            } else {
                None
            },
            Some(_) => None,
        },
    }
}

/// The split events of a block, as `dividend_events` reads dividends.
pub open spec fn split_events<F>(v: JsonValue<F>) -> Option<Seq<Split<F>>> {
    match non_null_field(v, "events"@) {
        None => Some(Seq::empty()),
        Some(ev) => match non_null_field(ev, "splits"@) {
            None => Some(Seq::empty()),
            Some(JsonValue::Object(m)) => if forall|i: int|
                0 <= i < m@.len() ==> #[trigger] split_of(m@[i].1) is Some {
                Some(m@.map_values(|e: (String, JsonValue<F>)| split_of(e.1).unwrap()))
            } else {
                None
            },
            Some(_) => None,
        },
    }
}

/// The metadata object holds the six members with their types.
pub open spec fn meta_valid<F>(v: JsonValue<F>) -> bool {
    let m = field(v, "meta"@);
    &&& m is Some
    &&& text_of(field(m.unwrap(), "symbol"@)) is Some
    &&& text_of(field(m.unwrap(), "currency"@)) is Some
    &&& text_of(field(m.unwrap(), "range"@)) is Some
    &&& text_of(field(m.unwrap(), "dataGranularity"@)) is Some
    &&& int_of(field(m.unwrap(), "gmtoffset"@)) is Some
    &&& int_of(field(m.unwrap(), "firstTradeDate"@)) is Some
}

pub open spec fn meta_decodes<F>(v: JsonValue<F>, meta: YMetaData) -> bool {
    let m = field(v, "meta"@).unwrap();
    &&& text_of(field(m, "symbol"@)) == Some(meta.symbol@)
    &&& text_of(field(m, "currency"@)) == Some(meta.currency@)
    &&& text_of(field(m, "range"@)) == Some(meta.range@)
    &&& text_of(field(m, "dataGranularity"@)) == Some(meta.data_granularity@)
    &&& int_of(field(m, "gmtoffset"@)) == Some(meta.gmtoffset)
    &&& int_of(field(m, "firstTradeDate"@)) == Some(meta.first_trade_date)
}

/// A column that is absent, or as long as `n`.
pub open spec fn fits<T>(c: Result<Option<Seq<T>>, ()>, n: nat) -> bool {
    c matches Ok(o) && (o matches Some(s) ==> s.len() == n)
}

/// A result block decodes: metadata and integer timestamps are present,
/// each indicator column is absent or an array of well-formed cells as long
/// as the timestamps, and the event maps are well-formed.
pub open spec fn block_valid<F>(v: JsonValue<F>) -> bool {
    let q = first_indicator(v, "quote"@);
    let a = first_indicator(v, "adjclose"@);
    &&& meta_valid(v)
    &&& timestamps(v) is Some
    &&& fits(price_column(q, "open"@), timestamps(v).unwrap().len())
    &&& fits(price_column(q, "high"@), timestamps(v).unwrap().len())
    &&& fits(price_column(q, "low"@), timestamps(v).unwrap().len())
    &&& fits(price_column(q, "close"@), timestamps(v).unwrap().len())
    &&& fits(volume_column(q), timestamps(v).unwrap().len())
    &&& fits(price_column(a, "adjclose"@), timestamps(v).unwrap().len())
    &&& dividend_events(v) is Some
    &&& split_events(v) is Some
}

/// `b` is the block decoded from `v`.
pub open spec fn block_decodes<F>(v: JsonValue<F>, b: YQuoteBlock<F>) -> bool {
    let q = first_indicator(v, "quote"@);
    let a = first_indicator(v, "adjclose"@);
    &&& meta_decodes(v, b.meta)
    &&& timestamps(v) == Some(b.timestamp@)
    &&& price_column(q, "open"@) == Ok::<_, ()>(column(b.indicators.open))
    &&& price_column(q, "high"@) == Ok::<_, ()>(column(b.indicators.high))
    &&& price_column(q, "low"@) == Ok::<_, ()>(column(b.indicators.low))
    &&& price_column(q, "close"@) == Ok::<_, ()>(column(b.indicators.close))
    &&& volume_column(q) == Ok::<_, ()>(column(b.indicators.volume))
    &&& price_column(a, "adjclose"@) == Ok::<_, ()>(column(b.indicators.adjclose))
    &&& dividend_events(v) == Some(b.dividends@)
    &&& split_events(v) == Some(b.splits@)
}

/// The blocks of `chart.result`, if it is a non-empty array.
pub open spec fn result_blocks<F>(doc: JsonValue<F>) -> Option<Seq<JsonValue<F>>> {
    match field(doc, "chart"@) {
        None => None,
        Some(c) => match field(c, "result"@) {
            None => None,
            Some(x) => match items(x) {
                Some(a) => if a.len() > 0 {
                    Some(a)
                } else {
                    None
                },
                None => None,
            },
        },
    }
}

/// The chart document decodes: `chart.result` is a non-empty array of
/// blocks that decode.
pub open spec fn chart_valid<F>(doc: JsonValue<F>) -> bool {
    &&& result_blocks(doc) is Some
    &&& forall|k: int|
        0 <= k < result_blocks(doc).unwrap().len() ==> #[trigger] block_valid(
            result_blocks(doc).unwrap()[k],
        )
}

fn price_cells<F: Copy>(a: &Vec<JsonValue<F>>) -> (r: Option<Vec<Option<F>>>)
    ensures
        r is Some <==> forall|i: int| 0 <= i < a@.len() ==> #[trigger] price_cell(a@[i]) is Some,
        r matches Some(c) ==> c@ == a@.map_values(|x: JsonValue<F>| price_cell(x).unwrap()),
{
    let mut out: Vec<Option<F>> = Vec::new();
    let mut i: usize = 0;
    while i < a.len()
        invariant
            i <= a@.len(),
            forall|j: int| 0 <= j < i ==> #[trigger] price_cell(a@[j]) is Some,
            out@ == a@.subrange(0, i as int).map_values(|x: JsonValue<F>| price_cell(x).unwrap()),
        decreases a@.len() - i,
    {
        let cell = match &a[i] {
            JsonValue::Null => None,
            JsonValue::Number(n) => Some(n.float),
            _ => {
                assert(price_cell(a@[i as int]) is None);
                return None;
            },
        };
        out.push(cell);
        assert(out@ =~= a@.subrange(0, i + 1).map_values(
            |x: JsonValue<F>| price_cell(x).unwrap(),
        ));
        i = i + 1;
    }
    assert(a@.subrange(0, a@.len() as int) =~= a@);
    Some(out)
}

fn volume_cells<F>(a: &Vec<JsonValue<F>>) -> (r: Option<Vec<Option<u64>>>)
    ensures
        r is Some <==> forall|i: int| 0 <= i < a@.len() ==> #[trigger] volume_cell(a@[i]) is Some,
        r matches Some(c) ==> c@ == a@.map_values(|x: JsonValue<F>| volume_cell(x).unwrap()),
{
    let mut out: Vec<Option<u64>> = Vec::new();
    let mut i: usize = 0;
    while i < a.len()
        invariant
            i <= a@.len(),
            forall|j: int| 0 <= j < i ==> #[trigger] volume_cell(a@[j]) is Some,
            out@ == a@.subrange(0, i as int).map_values(
                |x: JsonValue<F>| volume_cell(x).unwrap(),
            ),
        decreases a@.len() - i,
    {
        let cell = match &a[i] {
            JsonValue::Null => None,
            JsonValue::Number(n) => match n.uint {
                Some(u) => Some(u),
                None => {
                    assert(volume_cell(a@[i as int]) is None);
                    return None;
                },
            },
            _ => {
                assert(volume_cell(a@[i as int]) is None);
                return None;
            },
        };
        out.push(cell);
        assert(out@ =~= a@.subrange(0, i + 1).map_values(
            |x: JsonValue<F>| volume_cell(x).unwrap(),
        ));
        i = i + 1;
    }
    assert(a@.subrange(0, a@.len() as int) =~= a@);
    Some(out)
}

fn time_cells<F>(a: &Vec<JsonValue<F>>) -> (r: Option<Vec<i64>>)
    ensures
        r is Some <==> forall|i: int| 0 <= i < a@.len() ==> #[trigger] time_cell(a@[i]) is Some,
        r matches Some(c) ==> c@ == a@.map_values(|x: JsonValue<F>| time_cell(x).unwrap()),
{
    let mut out: Vec<i64> = Vec::new();
    let mut i: usize = 0;
    while i < a.len()
        invariant
            i <= a@.len(),
            forall|j: int| 0 <= j < i ==> #[trigger] time_cell(a@[j]) is Some,
            out@ == a@.subrange(0, i as int).map_values(|x: JsonValue<F>| time_cell(x).unwrap()),
        decreases a@.len() - i,
    {
        let cell = match &a[i] {
            JsonValue::Number(n) => match n.int {
                Some(t) => t,
                None => {
                    assert(time_cell(a@[i as int]) is None);
                    return None;
                },
            },
            _ => {
                assert(time_cell(a@[i as int]) is None);
                return None;
            },
        };
        out.push(cell);
        assert(out@ =~= a@.subrange(0, i + 1).map_values(
            |x: JsonValue<F>| time_cell(x).unwrap(),
        ));
        i = i + 1;
    }
    assert(a@.subrange(0, a@.len() as int) =~= a@);
    Some(out)
}

fn price_col<F: Copy>(obj: &JsonValue<F>, key: &str) -> (r: Result<Option<Vec<Option<F>>>, ()>)
    ensures
        r is Ok <==> price_column(Some(*obj), key@) is Ok,
        r matches Ok(c) ==> price_column(Some(*obj), key@) == Ok::<_, ()>(column(c)),
{
    match obj.get_non_null(key) {
        None => Ok(None),
        Some(JsonValue::Array(a)) => match price_cells(a) {
            Some(c) => Ok(Some(c)),
            None => Err(()),
        },
        Some(_) => Err(()),
    }
}

fn volume_col<F>(obj: &JsonValue<F>) -> (r: Result<Option<Vec<Option<u64>>>, ()>)
    ensures
        r is Ok <==> volume_column(Some(*obj)) is Ok,
        r matches Ok(c) ==> volume_column(Some(*obj)) == Ok::<_, ()>(column(c)),
{
    match obj.get_non_null("volume") {
        None => Ok(None),
        Some(JsonValue::Array(a)) => match volume_cells(a) {
            Some(c) => Ok(Some(c)),
            None => Err(()),
        },
        Some(_) => Err(()),
    }
}

fn first_indicator_of<'a, F>(v: &'a JsonValue<F>, key: &str) -> (r: Option<&'a JsonValue<F>>)
    ensures
        r is Some <==> first_indicator(*v, key@) is Some,
        r matches Some(x) ==> first_indicator(*v, key@) == Some(*x),
{
    match v.get_non_null("indicators") {
        None => None,
        Some(ind) => match ind.get_non_null(key) {
            Some(JsonValue::Array(a)) => if a.len() > 0 {
                Some(&a[0])
            } else {
                None
            },
            _ => None,
        },
    }
}

fn text_member<F>(obj: &JsonValue<F>, key: &str) -> (r: Option<String>)
    ensures
        r is Some <==> text_of(field(*obj, key@)) is Some,
        r matches Some(s) ==> text_of(field(*obj, key@)) == Some(s@),
{
    match obj.get(key) {
        Some(JsonValue::Str(s)) => Some(s.clone()),
        _ => None,
    }
}

fn int_member<F>(obj: &JsonValue<F>, key: &str) -> (r: Option<i64>)
    ensures
        r == int_of(field(*obj, key@)),
{
    match obj.get(key) {
        Some(JsonValue::Number(n)) => n.int,
        _ => None,
    }
}

fn decode_meta<F>(v: &JsonValue<F>) -> (r: Option<YMetaData>)
    ensures
        r is Some <==> meta_valid(*v),
        r matches Some(m) ==> meta_decodes(*v, m),
{
    let m = match v.get("meta") {
        Some(m) => m,
        None => {
            return None;
        },
    };
    let symbol = text_member(m, "symbol");
    let currency = text_member(m, "currency");
    let range = text_member(m, "range");
    let data_granularity = text_member(m, "dataGranularity");
    let gmtoffset = int_member(m, "gmtoffset");
    let first_trade_date = int_member(m, "firstTradeDate");
    match (symbol, currency, range, data_granularity, gmtoffset, first_trade_date) {
        (Some(symbol), Some(currency), Some(range), Some(data_granularity), Some(gmtoffset), Some(first_trade_date)) => {
            Some(YMetaData { symbol, currency, range, data_granularity, gmtoffset, first_trade_date })
        },
        _ => None,
    }
}

fn dividend_entry<F: Copy>(x: &JsonValue<F>) -> (r: Option<Dividend<F>>)
    ensures
        r == dividend_of(*x),
{
    let date = int_member(x, "date");
    match (x.get("amount"), date) {
        (Some(JsonValue::Number(a)), Some(d)) => Some(Dividend { amount: a.float, date: d }),
        _ => None,
    }
}

fn split_entry<F: Copy>(x: &JsonValue<F>) -> (r: Option<Split<F>>)
    ensures
        r == split_of(*x),
{
    let date = int_member(x, "date");
    match (date, x.get("numerator"), x.get("denominator")) {
        (Some(d), Some(JsonValue::Number(n)), Some(JsonValue::Number(m))) => Some(
            Split { date: d, numerator: n.float, denominator: m.float },
        ),
        _ => None,
    }
}

fn decode_dividends<F: Copy>(v: &JsonValue<F>) -> (r: Option<Vec<Dividend<F>>>)
    ensures
        r is Some <==> dividend_events(*v) is Some,
        r matches Some(d) ==> dividend_events(*v) == Some(d@),
{
    let ev = match v.get_non_null("events") {
        None => {
            return Some(Vec::new());
        },
        Some(ev) => ev,
    };
    let m = match ev.get_non_null("dividends") {
        None => {
            return Some(Vec::new());
        },
        Some(JsonValue::Object(m)) => m,
        Some(_) => {
            return None;
        },
    };
    let mut out: Vec<Dividend<F>> = Vec::new();
    let mut i: usize = 0;
    while i < m.len()
        invariant
            i <= m@.len(),
            non_null_field(*ev, "dividends"@) == Some(JsonValue::Object(*m)),
            non_null_field(*v, "events"@) == Some(*ev),
            forall|j: int| 0 <= j < i ==> #[trigger] dividend_of(m@[j].1) is Some,
            out@ == m@.subrange(0, i as int).map_values(
                |e: (String, JsonValue<F>)| dividend_of(e.1).unwrap(),
            ),
        decreases m@.len() - i,
    {
        match dividend_entry(&m[i].1) {
            Some(d) => out.push(d),
            None => {
                return None;
            },
        }
        assert(out@ =~= m@.subrange(0, i + 1).map_values(
            |e: (String, JsonValue<F>)| dividend_of(e.1).unwrap(),
        ));
        i = i + 1;
    }
    assert(m@.subrange(0, m@.len() as int) =~= m@);
    Some(out)
}

fn decode_splits<F: Copy>(v: &JsonValue<F>) -> (r: Option<Vec<Split<F>>>)
    ensures
        r is Some <==> split_events(*v) is Some,
        r matches Some(d) ==> split_events(*v) == Some(d@),
{
    let ev = match v.get_non_null("events") {
        None => {
            return Some(Vec::new());
        },
        Some(ev) => ev,
    };
    let m = match ev.get_non_null("splits") {
        None => {
            return Some(Vec::new());
        },
        Some(JsonValue::Object(m)) => m,
        Some(_) => {
            return None;
        },
    };
    let mut out: Vec<Split<F>> = Vec::new();
    let mut i: usize = 0;
    while i < m.len()
        invariant
            i <= m@.len(),
            non_null_field(*ev, "splits"@) == Some(JsonValue::Object(*m)),
            non_null_field(*v, "events"@) == Some(*ev),
            forall|j: int| 0 <= j < i ==> #[trigger] split_of(m@[j].1) is Some,
            out@ == m@.subrange(0, i as int).map_values(
                |e: (String, JsonValue<F>)| split_of(e.1).unwrap(),
            ),
        decreases m@.len() - i,
    {
        match split_entry(&m[i].1) {
            Some(d) => out.push(d),
            None => {
                return None;
            },
        }
        assert(out@ =~= m@.subrange(0, i + 1).map_values(
            |e: (String, JsonValue<F>)| split_of(e.1).unwrap(),
        ));
        i = i + 1;
    }
    assert(m@.subrange(0, m@.len() as int) =~= m@);
    Some(out)
}

fn fits_len<T>(c: &Option<Vec<Option<T>>>, n: usize) -> (r: bool)
    ensures
        r == (column(*c) matches Some(s) ==> s.len() == n),
{
    match c {
        Some(v) => v.len() == n,
        None => true,
    }
}

/// Decodes one block of `chart.result`.
fn decode_block<F: Copy>(v: &JsonValue<F>) -> (r: Option<YQuoteBlock<F>>)
    ensures
        r is Some <==> block_valid(*v),
        r matches Some(b) ==> block_decodes(*v, b) && b.wf(),
{
    let meta = match decode_meta(v) {
        Some(m) => m,
        None => {
            return None;
        },
    };
    let timestamp = match v.get("timestamp") {
        Some(JsonValue::Array(a)) => match time_cells(a) {
            Some(t) => t,
            None => {
                return None;
            },
        },
        _ => {
            return None;
        },
    };
    let n = timestamp.len();
    let q = first_indicator_of(v, "quote");
    let a = first_indicator_of(v, "adjclose");
    let (open, high, low, close, volume) = match q {
        Some(o) => (
            price_col(o, "open"),
            price_col(o, "high"),
            price_col(o, "low"),
            price_col(o, "close"),
            volume_col(o),
        ),
        None => (Ok(None), Ok(None), Ok(None), Ok(None), Ok(None)),
    };
    let adjclose = match a {
        Some(o) => price_col(o, "adjclose"),
        None => Ok(None),
    };
    let (open, high, low, close, volume, adjclose) = match (open, high, low, close, volume, adjclose) {
        (Ok(open), Ok(high), Ok(low), Ok(close), Ok(volume), Ok(adjclose)) => (open, high, low, close, volume, adjclose),
        _ => {
            return None;
        },
    };
    if !(fits_len(&open, n) && fits_len(&high, n) && fits_len(&low, n) && fits_len(&close, n)
        && fits_len(&volume, n) && fits_len(&adjclose, n)) {
        return None;
    }
    let dividends = match decode_dividends(v) {
        Some(d) => d,
        None => {
            return None;
        },
    };
    let splits = match decode_splits(v) {
        Some(d) => d,
        None => {
            return None;
        },
    };
    Some(YQuoteBlock {
        meta,
        timestamp,
        indicators: QuoteBlock { open, high, low, close, volume, adjclose },
        dividends,
        splits,
    })
}

impl<F> YResponse<F> {
    /// There is at least one block, and each is well formed.
    pub open spec fn wf(&self) -> bool {
        &&& self.chart.result@.len() > 0
        &&& forall|k: int| 0 <= k < self.chart.result@.len() ==> #[trigger] self.chart.result@[k].wf()
    }

    /// The block of the requested ticker.
    pub open spec fn first(&self) -> YQuoteBlock<F> {
        self.chart.result@[0]
    }
}

impl<F: Copy> YResponse<F> {
    /// Decodes a chart document. Fails with `SchemaMismatch` unless
    /// `chart.result` is a non-empty array whose blocks each hold the metadata
    /// and the integer timestamps, indicator arrays of well-formed cells as
    /// long as the timestamps (or absent), and well-formed event maps.
    pub fn from_json(doc: &JsonValue<F>) -> (r: Result<YResponse<F>, YahooError>)
        ensures
            r is Ok <==> chart_valid(*doc),
            r matches Err(e) ==> e == YahooError::SchemaMismatch,
            r matches Ok(resp) ==> {
                &&& resp.wf()
                &&& resp.chart.result@.len() == result_blocks(*doc).unwrap().len()
                &&& forall|k: int|
                    0 <= k < resp.chart.result@.len() ==> block_decodes(
                        result_blocks(*doc).unwrap()[k],
                        #[trigger] resp.chart.result@[k],
                    )
            },
    {
        let blocks = match doc.get("chart") {
            Some(c) => match c.get("result") {
                Some(JsonValue::Array(a)) => a,
                _ => {
                    return Err(YahooError::SchemaMismatch);
                },
            },
            None => {
                return Err(YahooError::SchemaMismatch);
            },
        };
        if blocks.len() == 0 {
            return Err(YahooError::SchemaMismatch);
        }
        let mut result: Vec<YQuoteBlock<F>> = Vec::new();
        let mut k: usize = 0;
        while k < blocks.len()
            invariant
                result_blocks(*doc) == Some(blocks@),
                k <= blocks@.len(),
                result@.len() == k,
                forall|j: int| 0 <= j < k ==> #[trigger] block_valid(blocks@[j]),
                forall|j: int|
                    0 <= j < k ==> block_decodes(blocks@[j], #[trigger] result@[j])
                        && result@[j].wf(),
            decreases blocks@.len() - k,
        {
            match decode_block(&blocks[k]) {
                Some(b) => result.push(b),
                None => {
                    return Err(YahooError::SchemaMismatch);
                },
            }
            k = k + 1;
        }
        Ok(YResponse { chart: YChart { result } })
    }

    /// The quotes of the requested ticker; see `YQuoteBlock::quotes`.
    pub fn quotes(&self) -> (r: Result<Vec<Quote<F>>, YahooError>)
        requires
            self.wf(),
        ensures
            r is Err <==> self.first().missing_field(),
            r matches Err(e) ==> e == YahooError::MissingField,
            r matches Ok(q) ==> q@ == self.first().spec_quotes(),
    {
        self.chart.result[0].quotes()
    }

    /// The most recent complete quote of the requested ticker; see
    /// `YQuoteBlock::last_quote`.
    pub fn last_quote(&self) -> (r: Result<Quote<F>, YahooError>)
        requires
            self.wf(),
        ensures
            self.first().missing_field() ==> r == Err::<Quote<F>, YahooError>(
                YahooError::MissingField,
            ),
            !self.first().missing_field() ==> (r is Err <==> self.first().spec_quotes().len()
                == 0),
            !self.first().missing_field() ==> (r is Err ==> r == Err::<Quote<F>, YahooError>(
                YahooError::NoValidQuote,
            )),
            r matches Ok(q) ==> q == self.first().spec_quotes().last(),
            r matches Ok(q) ==> (self.first().sorted_timestamps() ==> forall|k: int|
                0 <= k < self.first().spec_quotes().len() ==> self.first().spec_quotes()[k].timestamp
                    <= q.timestamp),
    {
        self.chart.result[0].last_quote()
    }

    /// The dividends of the requested ticker, by date.
    pub fn dividends(&self) -> (r: Vec<Dividend<F>>)
        requires
            self.wf(),
        ensures
            crate::chart::sorted_by_date(r@),
            r@.to_multiset() == self.first().dividends@.to_multiset(),
    {
        self.chart.result[0].dividends()
    }

    /// The splits of the requested ticker, by date.
    pub fn splits(&self) -> (r: Vec<Split<F>>)
        requires
            self.wf(),
        ensures
            crate::chart::sorted_by_date(r@),
            r@.to_multiset() == self.first().splits@.to_multiset(),
    {
        self.chart.result[0].splits()
    }
}

} // verus!
