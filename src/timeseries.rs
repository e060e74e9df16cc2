use vstd::prelude::*;

use crate::error::YahooError;
use crate::json::{field, JsonValue};
use crate::tolerant::{unix_timestamp_representable, MAX_UNIX_SECONDS, MIN_UNIX_SECONDS};

verus! {

/// The cells of `x` when it is an array, and none otherwise.
pub open spec fn cells_or_empty<F>(x: Option<JsonValue<F>>) -> Seq<JsonValue<F>> {
    match x {
        Some(JsonValue::Array(a)) => a@,
        _ => Seq::empty(),
    }
}

/// The type of a series: the first name listed under `meta.type`.
pub open spec fn series_key<F>(x: JsonValue<F>) -> Option<Seq<char>> {
    match field(x, "meta"@) {
        Some(m) => match field(m, "type"@) {
            Some(JsonValue::Array(a)) => if a@.len() > 0 {
                match a@[0] {
                    JsonValue::Str(s) => Some(s@),
                    _ => None,
                }
            } else {
                None
            },
            _ => None,
        },
        None => None,
    }
}

/// A timestamp cell: an integer second that `time` represents.
pub open spec fn stamp_cell<F>(x: JsonValue<F>) -> Option<i64> {
    match x {
        JsonValue::Number(n) => match n.int {
            Some(s) => if MIN_UNIX_SECONDS <= s <= MAX_UNIX_SECONDS {
                Some(s)
            } else {
                None
            },
            None => None,
        },
        _ => None,
    }
}

/// A value cell: the number at `reportedValue.raw`.
pub open spec fn reported_cell<F>(x: JsonValue<F>) -> Option<F> {
    match field(x, "reportedValue"@) {
        Some(rv) => match field(rv, "raw"@) {
            Some(JsonValue::Number(n)) => Some(n.float),
            _ => None,
        },
        None => None,
    }
}

pub open spec fn min(a: int, b: int) -> int {
    if a <= b {
        a
    } else {
        b
    }
}

/// One result of the time-series endpoint: its type, and its timestamps
/// paired with the values in order, as far as the shorter of the two arrays
/// goes. `None` when the type is missing or a paired cell is malformed.
pub open spec fn series_of<F>(x: JsonValue<F>) -> Option<(Seq<char>, Seq<(i64, F)>)> {
    match series_key(x) {
        None => None,
        Some(key) => {
            let ts = cells_or_empty(field(x, "timestamp"@));
            let vs = cells_or_empty(field(x, key));
            let n = min(ts.len() as int, vs.len() as int);
            if forall|i: int|
                0 <= i < n ==> #[trigger] stamp_cell(ts[i]) is Some && reported_cell(vs[i]) is Some {
                Some(
                    (
                        key,
                        Seq::new(
                            n as nat,
                            |i: int| (stamp_cell(ts[i]).unwrap(), reported_cell(vs[i]).unwrap()),
                        ),
                    ),
                )
            } else {
                None
            }
        },
    }
}

/// The index of the entry of `fields` named `key`, searching from the end.
pub open spec fn key_index<F>(fields: Seq<(Seq<char>, Seq<(i64, F)>)>, key: Seq<char>) -> Option<
    int,
>
    decreases fields.len(),
{
    if fields.len() == 0 {
        None
    } else if fields.last().0 == key {
        Some(fields.len() - 1)
    } else {
        key_index(fields.drop_last(), key)
    }
}

/// `fields` with `entry` stored under its name: it replaces an entry of the
/// same name, or is appended.
pub open spec fn store<F>(
    fields: Seq<(Seq<char>, Seq<(i64, F)>)>,
    entry: (Seq<char>, Seq<(i64, F)>),
) -> Seq<(Seq<char>, Seq<(i64, F)>)> {
    match key_index(fields, entry.0) {
        Some(j) => fields.update(j, entry),
        None => fields.push(entry),
    }
}

/// The series of the first `n` results, each stored under its type.
pub open spec fn collected<F>(results: Seq<JsonValue<F>>, n: nat) -> Seq<(Seq<char>, Seq<(i64, F)>)>
    decreases n,
{
    if n == 0 {
        Seq::empty()
    } else {
        store(collected(results, (n - 1) as nat), series_of(results[n - 1]).unwrap())
    }
}

/// The results of a time-series document, when `timeseries.result` is an
/// array.
pub open spec fn series_results<F>(doc: JsonValue<F>) -> Option<Seq<JsonValue<F>>> {
    match field(doc, "timeseries"@) {
        Some(t) => match field(t, "result"@) {
            Some(JsonValue::Array(a)) => Some(a@),
            _ => None,
        },
        None => None,
    }
}

/// The view of decoded fields.
pub open spec fn fields_view<F>(f: Seq<(String, Vec<(i64, F)>)>) -> Seq<(Seq<char>, Seq<(i64, F)>)> {
    f.map_values(|e: (String, Vec<(i64, F)>)| (e.0@, e.1@))
}

proof fn lemma_key_index<F>(fields: Seq<(Seq<char>, Seq<(i64, F)>)>, key: Seq<char>)
    ensures
        key_index(fields, key) matches Some(j) ==> 0 <= j < fields.len() && fields[j].0 == key,
        key_index(fields, key) is None ==> forall|j: int|
            0 <= j < fields.len() ==> fields[j].0 != key,
    decreases fields.len(),
{
    if fields.len() > 0 && fields.last().0 != key {
        lemma_key_index(fields.drop_last(), key);
        assert(forall|j: int| 0 <= j < fields.len() - 1 ==> fields.drop_last()[j] == fields[j]);
    }
}

fn series_key_of<F>(x: &JsonValue<F>) -> (r: Option<String>)
    ensures
        r is Some <==> series_key(*x) is Some,
        r matches Some(k) ==> series_key(*x) == Some(k@),
{
    match x.get("meta") {
        Some(m) => match m.get("type") {
            Some(JsonValue::Array(a)) => if a.len() > 0 {
                match &a[0] {
                    JsonValue::Str(s) => Some(s.clone()),
                    _ => None,
                }
            } else {
                None
            },
            _ => None,
        },
        None => None,
    }
}

fn stamp_of<F>(x: &JsonValue<F>) -> (r: Option<i64>)
    ensures
        r == stamp_cell(*x),
{
    match x {
        JsonValue::Number(n) => match n.int {
            Some(s) => if unix_timestamp_representable(s) {
                Some(s)
            } else {
                None
            },
            None => None,
        },
        _ => None,
    }
}

fn reported_of<F: Copy>(x: &JsonValue<F>) -> (r: Option<F>)
    ensures
        r == reported_cell(*x),
{
    match x.get("reportedValue") {
        Some(rv) => match rv.get("raw") {
            Some(JsonValue::Number(n)) => Some(n.float),
            _ => None,
        },
        None => None,
    }
}

fn cells_of<'a, F>(x: Option<&'a JsonValue<F>>) -> (r: &'a [JsonValue<F>])
    ensures
        x is None ==> r@ == Seq::<JsonValue<F>>::empty(),
        x matches Some(v) ==> r@ == cells_or_empty(Some(*v)),
{
    match x {
        Some(JsonValue::Array(a)) => a.as_slice(),
        _ => &[],
    }
}

/// Decodes one result of the time-series endpoint.
fn decode_series<F: Copy>(x: &JsonValue<F>) -> (r: Option<(String, Vec<(i64, F)>)>)
    ensures
        r is Some <==> series_of(*x) is Some,
        r matches Some(e) ==> series_of(*x) == Some((e.0@, e.1@)),
{
    let key = match series_key_of(x) {
        Some(k) => k,
        None => {
            return None;
        },
    };
    let ts = cells_of(x.get("timestamp"));
    let vs = cells_of(x.get(key.as_str()));
    let n = if ts.len() <= vs.len() {
        ts.len()
    } else {
        vs.len()
    };
    let ghost tsv = cells_or_empty(field(*x, "timestamp"@));
    let ghost vsv = cells_or_empty(field(*x, key@));
    assert(ts@ == tsv);
    assert(vs@ == vsv);
    let mut out: Vec<(i64, F)> = Vec::new();
    let mut i: usize = 0;
    while i < n
        invariant
            series_key(*x) == Some(key@),
            tsv == cells_or_empty(field(*x, "timestamp"@)),
            vsv == cells_or_empty(field(*x, key@)),
            n == min(tsv.len() as int, vsv.len() as int),
            ts@ == tsv,
            vs@ == vsv,
            i <= n,
            forall|j: int|
                0 <= j < i ==> #[trigger] stamp_cell(tsv[j]) is Some && reported_cell(vsv[j]) is Some,
            out@ =~= Seq::new(
                i as nat,
                |j: int| (stamp_cell(tsv[j]).unwrap(), reported_cell(vsv[j]).unwrap()),
            ),
        decreases n - i,
    {
        match (stamp_of(&ts[i]), reported_of(&vs[i])) {
            (Some(t), Some(v)) => out.push((t, v)),
            _ => {
                assert(!(stamp_cell(tsv[i as int]) is Some && reported_cell(vsv[i as int]) is Some));
                return None;
            },
        }
        i = i + 1;
    }
    Some((key, out))
}

/// Reads the fundamentals time-series document: each result becomes its
/// type and its `(second, value)` pairs, and a later result of a type
/// replaces an earlier one. Fails with `SchemaMismatch` when
/// `timeseries.result` is no array, or a result has no type or a malformed
/// timestamp or value among those it pairs.
pub fn timeseries_fields<F: Copy>(doc: &JsonValue<F>) -> (r: Result<
    Vec<(String, Vec<(i64, F)>)>,
    YahooError,
>)
    ensures
        r is Ok <==> series_results(*doc) is Some && forall|k: int|
            0 <= k < series_results(*doc).unwrap().len() ==> #[trigger] series_of(
                series_results(*doc).unwrap()[k],
            ) is Some,
        r matches Err(e) ==> e == YahooError::SchemaMismatch,
        r matches Ok(f) ==> fields_view(f@) == collected(
            series_results(*doc).unwrap(),
            series_results(*doc).unwrap().len(),
        ),
{
    let results = match doc.get("timeseries") {
        Some(t) => match t.get("result") {
            Some(JsonValue::Array(a)) => a,
            _ => {
                return Err(YahooError::SchemaMismatch);
            },
        },
        None => {
            return Err(YahooError::SchemaMismatch);
        },
    };
    let mut fields: Vec<(String, Vec<(i64, F)>)> = Vec::new();
    let mut k: usize = 0;
    while k < results.len()
        invariant
            series_results(*doc) == Some(results@),
            k <= results@.len(),
            forall|j: int| 0 <= j < k ==> #[trigger] series_of(results@[j]) is Some,
            fields_view(fields@) == collected(results@, k as nat),
        decreases results@.len() - k,
    {
        let entry = match decode_series(&results[k]) {
            Some(e) => e,
            None => {
                return Err(YahooError::SchemaMismatch);
            },
        };
        let ghost before = fields_view(fields@);
        let ghost e = (entry.0@, entry.1@);
        proof {
            lemma_key_index(before, e.0);
        }
        let mut j: usize = fields.len();
        assert(before.subrange(0, j as int) =~= before);
        while j > 0
            invariant
                j <= fields@.len(),
                before == fields_view(fields@),
                key_index(before, e.0) == key_index(before.subrange(0, j as int), e.0),
                entry.0@ == e.0,
            ensures
                j <= fields@.len(),
                before == fields_view(fields@),
                key_index(before, e.0) == key_index(before.subrange(0, j as int), e.0),
                j > 0 ==> before[j - 1].0 == e.0,
            decreases j,
        {
            assert(before.subrange(0, j as int).drop_last() =~= before.subrange(0, j - 1));
            if fields[j - 1].0 == entry.0 {
                break;
            }
            j = j - 1;
        }
        if j > 0 {
            assert(before.subrange(0, j as int).last() == before[j - 1]);
            assert(key_index(before, e.0) == Some(j - 1));
            fields.set(j - 1, entry);
        } else {
            assert(key_index(before, e.0) is None);
            fields.push(entry);
        }
        assert(fields_view(fields@) =~= store(before, e));
        k = k + 1;
    }
    Ok(fields)
}

} // verus!
