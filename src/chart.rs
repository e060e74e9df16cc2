use vstd::prelude::*;

use crate::error::YahooError;

verus! {

/// Descriptive metadata of one ticker's chart payload.
#[derive(Debug, Clone)]
pub struct YMetaData {
    pub symbol: String,
    pub currency: String,
    pub range: String,
    pub data_granularity: String,
    pub gmtoffset: i64,
    pub first_trade_date: i64,
}

/// The indicator arrays of a chart, index-aligned with its timestamps.
/// An array that the payload omits is `None`.
#[derive(Debug, Clone)]
pub struct QuoteBlock<F> {
    pub open: Option<Vec<Option<F>>>,
    pub high: Option<Vec<Option<F>>>,
    pub low: Option<Vec<Option<F>>>,
    pub close: Option<Vec<Option<F>>>,
    pub volume: Option<Vec<Option<u64>>>,
    pub adjclose: Option<Vec<Option<F>>>,
}

/// One reconstructed point in time; every field is present by construction.
#[derive(Debug, Clone, Copy, PartialEq)]
pub struct Quote<F> {
    pub timestamp: i64,
    pub open: F,
    pub high: F,
    pub low: F,
    pub volume: u64,
    pub close: F,
    pub adjclose: F,
}

/// A dividend paid on `date`.
#[derive(Debug, Clone, Copy, PartialEq)]
pub struct Dividend<F> {
    pub amount: F,
    pub date: i64,
}

/// A split that took effect on `date`.
#[derive(Debug, Clone, Copy, PartialEq)]
pub struct Split<F> {
    pub date: i64,
    pub numerator: F,
    pub denominator: F,
}

/// One ticker's chart: metadata, parallel timestamp and indicator arrays, and
/// the sparse corporate actions of the range.
#[derive(Debug, Clone)]
pub struct YQuoteBlock<F> {
    pub meta: YMetaData,
    pub timestamp: Vec<i64>,
    pub indicators: QuoteBlock<F>,
    pub dividends: Vec<Dividend<F>>,
    pub splits: Vec<Split<F>>,
}

/// The view of an optional indicator array.
pub open spec fn column<T>(a: Option<Vec<Option<T>>>) -> Option<Seq<Option<T>>> {
    match a {
        Some(v) => Some(v@),
        None => None,
    }
}

/// An indicator array that is absent, or as long as the timestamps.
pub open spec fn aligned<T>(a: Option<Seq<Option<T>>>, n: nat) -> bool {
    a matches Some(s) ==> s.len() == n
}

/// The array is present and holds a value at index `i`.
pub open spec fn filled<T>(a: Option<Seq<Option<T>>>, i: int) -> bool {
    a matches Some(s) && 0 <= i < s.len() && s[i] is Some
}

/// The value at index `i` of a present array.
pub open spec fn cell<T>(a: Option<Seq<Option<T>>>, i: int) -> T {
    a.unwrap()[i].unwrap()
}

impl<F> QuoteBlock<F> {
    pub open spec fn aligned_to(&self, n: nat) -> bool {
        &&& aligned(column(self.open), n)
        &&& aligned(column(self.high), n)
        &&& aligned(column(self.low), n)
        &&& aligned(column(self.close), n)
        &&& aligned(column(self.volume), n)
        &&& aligned(column(self.adjclose), n)
    }

    /// Every one of the six arrays is present.
    pub open spec fn all_present(&self) -> bool {
        &&& self.open is Some
        &&& self.high is Some
        &&& self.low is Some
        &&& self.close is Some
        &&& self.volume is Some
        &&& self.adjclose is Some
    }

    /// All six fields hold a value at index `i`.
    pub open spec fn complete_at(&self, i: int) -> bool {
        &&& filled(column(self.open), i)
        &&& filled(column(self.high), i)
        &&& filled(column(self.low), i)
        &&& filled(column(self.close), i)
        &&& filled(column(self.volume), i)
        &&& filled(column(self.adjclose), i)
    }
}

impl<F> YQuoteBlock<F> {
    /// Every indicator array is as long as the timestamps, or absent.
    pub open spec fn wf(&self) -> bool {
        self.indicators.aligned_to(self.timestamp@.len())
    }

    /// A required indicator array is absent while there are timestamps.
    pub open spec fn missing_field(&self) -> bool {
        self.timestamp@.len() > 0 && !self.indicators.all_present()
    }

    /// The quote assembled from index `i` of the arrays.
    pub open spec fn quote_at(&self, i: int) -> Quote<F> {
        let b = self.indicators;
        Quote {
            timestamp: self.timestamp@[i],
            open: cell(column(b.open), i),
            high: cell(column(b.high), i),
            low: cell(column(b.low), i),
            volume: cell(column(b.volume), i),
            close: cell(column(b.close), i),
            adjclose: cell(column(b.adjclose), i),
        }
    }

    /// The indices below `n` at which every field is present, in order.
    pub open spec fn kept(&self, n: nat) -> Seq<int>
        decreases n,
    {
        if n == 0 {
            Seq::empty()
        } else {
            let prev = self.kept((n - 1) as nat);
            if self.indicators.complete_at(n - 1) {
                prev.push(n - 1)
            } else {
                prev
            }
        }
    }

    /// The reconstructed quote sequence: one quote per complete index, in the
    /// order of the arrays.
    pub open spec fn spec_quotes(&self) -> Seq<Quote<F>> {
        self.kept(self.timestamp@.len()).map_values(|i: int| self.quote_at(i))
    }
}

/// The value at index `i` of an optional array, if the array is present and
/// holds one there.
fn entry<T: Copy>(a: &Option<Vec<Option<T>>>, i: usize) -> (r: Option<T>)
    ensures
        filled(column(*a), i as int) <==> r is Some,
        r matches Some(x) ==> x == cell(column(*a), i as int),
{
    match a {
        Some(v) => if i < v.len() {
            v[i]
        } else {
            None
        },
        None => None,
    }
}

impl<F: Copy> YQuoteBlock<F> {
    /// The quote at index `i`, or `None` when any of its six fields is null
    /// there: no partially filled quote is ever built.
    pub fn quote_at_index(&self, i: usize) -> (r: Option<Quote<F>>)
        requires
            i < self.timestamp@.len(),
        ensures
            self.indicators.complete_at(i as int) <==> r is Some,
            r matches Some(q) ==> q == self.quote_at(i as int),
    {
        let b = &self.indicators;
        let open = entry(&b.open, i);
        let high = entry(&b.high, i);
        let low = entry(&b.low, i);
        let close = entry(&b.close, i);
        let volume = entry(&b.volume, i);
        let adjclose = entry(&b.adjclose, i);
        match (open, high, low, close, volume, adjclose) {
            (Some(open), Some(high), Some(low), Some(close), Some(volume), Some(adjclose)) => {
                Some(Quote { timestamp: self.timestamp[i], open, high, low, volume, close, adjclose })
            },
            _ => None,
        }
    }

    /// The quotes of every index at which all six fields are present, in the
    /// order of the arrays. Fails with `MissingField` when an indicator array
    /// is absent while there are timestamps.
    pub fn quotes(&self) -> (r: Result<Vec<Quote<F>>, YahooError>)
        requires
            self.wf(),
        ensures
            r is Err <==> self.missing_field(),
            r matches Err(e) ==> e == YahooError::MissingField,
            r matches Ok(q) ==> q@ == self.spec_quotes(),
    {
        let n = self.timestamp.len();
        let b = &self.indicators;
        if n > 0 && (b.open.is_none() || b.high.is_none() || b.low.is_none() || b.close.is_none()
            || b.volume.is_none() || b.adjclose.is_none()) {
            return Err(YahooError::MissingField);
        }
        let mut out: Vec<Quote<F>> = Vec::new();
        let mut i: usize = 0;
        while i < n
            invariant
                n == self.timestamp@.len(),
                i <= n,
                out@ == self.kept(i as nat).map_values(|k: int| self.quote_at(k)),
            decreases n - i,
        {
            let q = self.quote_at_index(i);
            let ghost before = self.kept(i as nat);
            if let Some(q) = q {
                out.push(q);
                assert(self.kept((i + 1) as nat) == before.push(i as int));
            } else {
                assert(self.kept((i + 1) as nat) == before);
            }
            assert(out@ =~= self.kept((i + 1) as nat).map_values(|k: int| self.quote_at(k)));
            i = i + 1;
        }
        Ok(out)
    }

    /// The most recent complete quote: scans from the last index backward
    /// and returns the first quote whose fields are all present. Fails with
    /// `MissingField` as `quotes` does, and with `NoValidQuote` when no index
    /// is complete.
    pub fn last_quote(&self) -> (r: Result<Quote<F>, YahooError>)
        requires
            self.wf(),
        ensures
            self.missing_field() ==> r == Err::<Quote<F>, YahooError>(YahooError::MissingField),
            !self.missing_field() ==> (r is Err <==> self.spec_quotes().len() == 0),
            !self.missing_field() ==> (r is Err <==> forall|i: int|
                0 <= i < self.timestamp@.len() ==> !self.indicators.complete_at(i)),
            !self.missing_field() ==> (r is Err ==> r == Err::<Quote<F>, YahooError>(
                YahooError::NoValidQuote,
            )),
            r matches Ok(q) ==> q == self.spec_quotes().last(),
            r matches Ok(q) ==> (self.sorted_timestamps() ==> forall|k: int|
                0 <= k < self.spec_quotes().len() ==> self.spec_quotes()[k].timestamp
                    <= q.timestamp),
    {
        let n = self.timestamp.len();
        let b = &self.indicators;
        if n > 0 && (b.open.is_none() || b.high.is_none() || b.low.is_none() || b.close.is_none()
            || b.volume.is_none() || b.adjclose.is_none()) {
            return Err(YahooError::MissingField);
        }
        proof {
            self.lemma_kept(n as nat);
        }
        let mut i: usize = n;
        while i > 0
            invariant
                n == self.timestamp@.len(),
                i <= n,
                forall|j: int| i <= j < n ==> !self.indicators.complete_at(j),
            decreases i,
        {
            if let Some(q) = self.quote_at_index(i - 1) {
                proof {
                    self.lemma_kept_last(n as nat, i - 1);
                    if self.sorted_timestamps() {
                        lemma_latest_quote(self);
                    }
                }
                return Ok(q);
            }
            i = i - 1;
        }
        proof {
            self.lemma_kept_none(n as nat);
        }
        Err(YahooError::NoValidQuote)
    }

    /// The dividends of the range, ordered by date ascending; empty when the
    /// payload records none.
    pub fn dividends(&self) -> (r: Vec<Dividend<F>>)
        ensures
            sorted_by_date(r@),
            r@.to_multiset() == self.dividends@.to_multiset(),
    {
        sort_by_date(&self.dividends)
    }

    /// The splits of the range, ordered by date ascending; empty when the
    /// payload records none.
    pub fn splits(&self) -> (r: Vec<Split<F>>)
        ensures
            sorted_by_date(r@),
            r@.to_multiset() == self.splits@.to_multiset(),
    {
        sort_by_date(&self.splits)
    }
}

impl<F> YQuoteBlock<F> {
    /// The timestamps never decrease.
    pub open spec fn sorted_timestamps(&self) -> bool {
        forall|i: int, j: int|
            0 <= i <= j < self.timestamp@.len() ==> self.timestamp@[i] <= self.timestamp@[j]
    }

    proof fn lemma_kept(&self, n: nat)
        ensures
            self.kept(n).len() <= n,
            forall|k: int|
                0 <= k < self.kept(n).len() ==> 0 <= #[trigger] self.kept(n)[k] < n
                    && self.indicators.complete_at(self.kept(n)[k]),
            forall|k1: int, k2: int|
                0 <= k1 < k2 < self.kept(n).len() ==> self.kept(n)[k1] < self.kept(n)[k2],
            forall|i: int|
                0 <= i < n && #[trigger] self.indicators.complete_at(i) ==> self.kept(n).contains(
                    i,
                ),
        decreases n,
    {
        if n > 0 {
            self.lemma_kept((n - 1) as nat);
            let prev = self.kept((n - 1) as nat);
            let cur = self.kept(n);
            assert forall|i: int|
                0 <= i < n && #[trigger] self.indicators.complete_at(i) implies cur.contains(i) by {
                if i == n - 1 {
                    assert(cur[cur.len() - 1] == i);
                } else {
                    let k = choose|k: int| 0 <= k < prev.len() && prev[k] == i;
                    assert(cur[k] == i);
                }
            }
        }
    }

    proof fn lemma_kept_last(&self, n: nat, j: int)
        requires
            0 <= j < n,
            self.indicators.complete_at(j),
            forall|i: int| j < i < n ==> !self.indicators.complete_at(i),
        ensures
            self.kept(n).len() > 0,
            self.kept(n).last() == j,
        decreases n,
    {
        if n - 1 != j {
            self.lemma_kept_last((n - 1) as nat, j);
        }
    }

    proof fn lemma_kept_none(&self, n: nat)
        requires
            forall|i: int| 0 <= i < n ==> !self.indicators.complete_at(i),
        ensures
            self.kept(n).len() == 0,
        decreases n,
    {
        if n > 0 {
            self.lemma_kept_none((n - 1) as nat);
        }
    }
}

/// `q` is the quote built from some index at which all six fields are
/// present.
pub open spec fn quote_has_source<F>(c: YQuoteBlock<F>, q: Quote<F>) -> bool {
    exists|i: int|
        0 <= i < c.timestamp@.len() && c.indicators.complete_at(i) && q == #[trigger] c.quote_at(i)
}

/// Every reconstructed quote comes from an index below the number of
/// timestamps at which all six fields are present, and is the quote built
/// from that index; so there are at most as many quotes as timestamps.
pub proof fn lemma_quotes_from_complete_indices<F>(c: &YQuoteBlock<F>)
    ensures
        c.spec_quotes().len() <= c.timestamp@.len(),
        forall|k: int|
            0 <= k < c.spec_quotes().len() ==> {
                let i = #[trigger] c.kept(c.timestamp@.len())[k];
                &&& 0 <= i < c.timestamp@.len()
                &&& c.indicators.complete_at(i)
                &&& c.spec_quotes()[k] == c.quote_at(i)
            },
        forall|k: int|
            0 <= k < c.spec_quotes().len() ==> quote_has_source(*c, #[trigger] c.spec_quotes()[k]),
{
    c.lemma_kept(c.timestamp@.len());
    assert forall|k: int|
        0 <= k < c.spec_quotes().len() implies quote_has_source(*c, #[trigger] c.spec_quotes()[k]) by {
        let ks = c.kept(c.timestamp@.len());
        assert(c.spec_quotes().len() == ks.len());
        let i = ks[k];
        assert(0 <= i < c.timestamp@.len() && c.indicators.complete_at(i));
        assert(c.spec_quotes()[k] == c.quote_at(i));
    }
}

/// An index that the reconstruction leaves out has at least one of the six
/// fields null or absent there.
pub proof fn lemma_excluded_index_has_null<F>(c: &YQuoteBlock<F>, i: int)
    requires
        0 <= i < c.timestamp@.len(),
        !c.kept(c.timestamp@.len()).contains(i),
    ensures
        !filled(column(c.indicators.open), i) || !filled(column(c.indicators.high), i)
            || !filled(column(c.indicators.low), i) || !filled(column(c.indicators.close), i)
            || !filled(column(c.indicators.volume), i) || !filled(
            column(c.indicators.adjclose),
            i,
        ),
{
    c.lemma_kept(c.timestamp@.len());
    assert(!c.indicators.complete_at(i));
}

/// With non-decreasing timestamps, the last reconstructed quote has the
/// largest timestamp of all reconstructed quotes.
pub proof fn lemma_latest_quote<F>(c: &YQuoteBlock<F>)
    requires
        c.sorted_timestamps(),
        c.spec_quotes().len() > 0,
    ensures
        forall|k: int|
            0 <= k < c.spec_quotes().len() ==> c.spec_quotes()[k].timestamp
                <= c.spec_quotes().last().timestamp,
{
    let n = c.timestamp@.len();
    c.lemma_kept(n);
    let ks = c.kept(n);
    assert forall|k: int| 0 <= k < c.spec_quotes().len() implies c.spec_quotes()[k].timestamp
        <= c.spec_quotes().last().timestamp by {
        let last = ks.len() - 1;
        if k < last {
            assert(ks[k] < ks[last]);
        }
        assert(ks[k] <= ks[last]);
        assert(c.spec_quotes()[k].timestamp == c.timestamp@[ks[k]]);
        assert(c.spec_quotes().last().timestamp == c.timestamp@[ks[last]]);
    }
}

/// An event that took effect on a date.
pub trait Dated {
    spec fn spec_date(&self) -> i64;

    fn date(&self) -> (r: i64)
        ensures
            r == self.spec_date(),
    ;
}

impl<F> Dated for Dividend<F> {
    open spec fn spec_date(&self) -> i64 {
        self.date
    }

    fn date(&self) -> (r: i64) {
        self.date
    }
}

impl<F> Dated for Split<F> {
    open spec fn spec_date(&self) -> i64 {
        self.date
    }

    fn date(&self) -> (r: i64) {
        self.date
    }
}

/// The dates of `s` never decrease.
pub open spec fn sorted_by_date<T: Dated>(s: Seq<T>) -> bool {
    forall|i: int, j: int| 0 <= i <= j < s.len() ==> s[i].spec_date() <= s[j].spec_date()
}

/// The events of `events` ordered by date; events of one date keep their
/// order.
pub fn sort_by_date<T: Dated + Copy>(events: &Vec<T>) -> (r: Vec<T>)
    ensures
        sorted_by_date(r@),
        r@.to_multiset() == events@.to_multiset(),
{
    let mut out: Vec<T> = Vec::new();
    let mut i: usize = 0;
    assert(out@ =~= events@.subrange(0, 0));
    while i < events.len()
        invariant
            i <= events@.len(),
            sorted_by_date(out@),
            out@.to_multiset() == events@.subrange(0, i as int).to_multiset(),
        decreases events@.len() - i,
    {
        let x = events[i];
        let d = x.date();
        let mut pos: usize = out.len();
        while pos > 0 && out[pos - 1].date() > d
            invariant
                pos <= out@.len(),
                forall|k: int| pos <= k < out@.len() ==> out@[k].spec_date() > d,
            decreases pos,
        {
            pos = pos - 1;
        }
        let ghost old_out = out@;
        proof {
            vstd::seq_lib::to_multiset_insert(old_out, pos as int, x);
            vstd::seq_lib::to_multiset_build(events@.subrange(0, i as int), x);
            assert(events@.subrange(0, i as int).push(x) =~= events@.subrange(0, i + 1));
        }
        out.insert(pos, x);
        assert(out@ == old_out.insert(pos as int, x));
        assert forall|a: int, b: int| 0 <= a <= b < out@.len() implies out@[a].spec_date()
            <= out@[b].spec_date() by {
            if pos > 0 {
                assert(old_out[pos - 1].spec_date() <= d);
            }
        }
        i = i + 1;
    }
    assert(events@.subrange(0, events@.len() as int) =~= events@);
    out
}

} // verus!
