use vstd::prelude::*;
use vstd::string::StringSliceAdditionalSpecFns;

use crate::error::YahooError;
use crate::json::{field, JsonValue};

verus! {

/// The text that precedes the assignment of the page's global document.
pub const MARKER: &'static str = "root.App.main = ";

/// The text that closes that assignment.
pub const TERMINATOR: &'static str = ";\n";

/// `needle` occurs in `hay` at byte `i`.
pub open spec fn occurs_at(hay: Seq<u8>, needle: Seq<u8>, i: int) -> bool {
    0 <= i && i + needle.len() <= hay.len() && hay.subrange(i, i + needle.len()) == needle
}

/// The first position at or after `from` where `needle` occurs in `hay`.
pub open spec fn find_from(hay: Seq<u8>, needle: Seq<u8>, from: int) -> Option<int>
    decreases hay.len() + 1 - from,
{
    if from < 0 || from + needle.len() > hay.len() {
        None
    } else if occurs_at(hay, needle, from) {
        Some(from)
    } else {
        find_from(hay, needle, from + 1)
    }
}

/// A found position is an occurrence at or after `from`, and no earlier
/// position from `from` on is one.
pub proof fn lemma_find_from(hay: Seq<u8>, needle: Seq<u8>, from: int)
    ensures
        find_from(hay, needle, from) matches Some(i) ==> from <= i && occurs_at(hay, needle, i)
            && forall|j: int| from <= j < i ==> !occurs_at(hay, needle, j),
    decreases hay.len() + 1 - from,
{
    if 0 <= from && from + needle.len() <= hay.len() && !occurs_at(hay, needle, from) {
        lemma_find_from(hay, needle, from + 1);
    }
}

/// A one-byte whitespace character: tab, line feed, vertical tab, form feed,
/// carriage return or space.
pub open spec fn is_space1(a: u8) -> bool {
    a == 0x20 || (0x09 <= a && a <= 0x0d)
}

/// A two-byte whitespace character: U+0085 or U+00A0.
pub open spec fn is_space2(a: u8, b: u8) -> bool {
    a == 0xc2 && (b == 0x85 || b == 0xa0)
}

/// A three-byte whitespace character: U+1680, U+2000 to U+200A, U+2028,
/// U+2029, U+202F, U+205F or U+3000.
pub open spec fn is_space3(a: u8, b: u8, c: u8) -> bool {
    ||| (a == 0xe1 && b == 0x9a && c == 0x80)
    ||| (a == 0xe2 && b == 0x80 && ((0x80 <= c && c <= 0x8a) || c == 0xa8 || c == 0xa9 || c
        == 0xaf))
    ||| (a == 0xe2 && b == 0x81 && c == 0x9f)
    ||| (a == 0xe3 && b == 0x80 && c == 0x80)
}

/// The length in bytes of the whitespace character that `s` starts with, or
/// 0. These are the characters of Unicode's `White_Space` property, which
/// `str::trim` removes.
pub open spec fn lead_space(s: Seq<u8>) -> int {
    if s.len() >= 1 && is_space1(s[0]) {
        1
    } else if s.len() >= 2 && is_space2(s[0], s[1]) {
        2
    } else if s.len() >= 3 && is_space3(s[0], s[1], s[2]) {
        3
    } else {
        0
    }
}

/// The length in bytes of the whitespace character that `s` ends with, or 0.
pub open spec fn trail_space(s: Seq<u8>) -> int {
    let n = s.len() as int;
    if n >= 1 && is_space1(s[n - 1]) {
        1
    } else if n >= 2 && is_space2(s[n - 2], s[n - 1]) {
        2
    } else if n >= 3 && is_space3(s[n - 3], s[n - 2], s[n - 1]) {
        3
    } else {
        0
    }
}

/// The UTF-8 text `s` without its leading and trailing whitespace.
pub open spec fn trim_spaces(s: Seq<u8>) -> Seq<u8>
    decreases s.len(),
{
    if lead_space(s) > 0 {
        trim_spaces(s.subrange(lead_space(s), s.len() as int))
    } else if trail_space(s) > 0 {
        trim_spaces(s.subrange(0, s.len() - trail_space(s)))
    } else {
        s
    }
}

/// The outcome of locating the embedded document in the page bytes `page`:
/// the trimmed bytes between the first marker and the first terminator that
/// follows it.
pub open spec fn spec_payload(page: Seq<u8>) -> Result<Seq<u8>, YahooError> {
    let marker = MARKER.spec_bytes();
    match find_from(page, marker, 0) {
        None => Err(YahooError::MarkerNotFound),
        Some(m) => {
            let start = m + marker.len();
            match find_from(page, TERMINATOR.spec_bytes(), start) {
                None => Err(YahooError::MalformedDocument),
                Some(e) => Ok(trim_spaces(page.subrange(start, e))),
            }
        },
    }
}

/// Whether `needle` occurs in `hay` at `i`.
fn occurs(hay: &[u8], needle: &[u8], i: usize) -> (r: bool)
    requires
        i + needle@.len() <= hay@.len(),
    ensures
        r == occurs_at(hay@, needle@, i as int),
{
    let n = hay.len();
    let mut k: usize = 0;
    while k < needle.len()
        invariant
            n == hay@.len(),
            i + needle@.len() <= hay@.len(),
            k <= needle@.len(),
            hay@.subrange(i as int, i + k) == needle@.subrange(0, k as int),
        decreases needle@.len() - k,
    {
        if hay[i + k] != needle[k] {
            assert(hay@.subrange(i as int, i + needle@.len())[k as int] != needle@[k as int]);
            return false;
        }
        assert(hay@.subrange(i as int, i + k + 1) =~= hay@.subrange(i as int, i + k).push(
            hay@[i + k],
        ));
        assert(needle@.subrange(0, k + 1) =~= needle@.subrange(0, k as int).push(needle@[k as int]));
        k = k + 1;
    }
    assert(needle@.subrange(0, needle@.len() as int) =~= needle@);
    true
}

/// The first position at or after `from` where `needle` occurs in `hay`.
fn find(hay: &[u8], needle: &[u8], from: usize) -> (r: Option<usize>)
    ensures
        r matches Some(i) ==> find_from(hay@, needle@, from as int) == Some(i as int),
        r is None ==> find_from(hay@, needle@, from as int) is None,
{
    if needle.len() > hay.len() {
        return None;
    }
    if needle.len() == 0 {
        if from <= hay.len() {
            assert(hay@.subrange(from as int, from as int) =~= needle@);
            return Some(from);
        }
        return None;
    }
    let last = hay.len() - needle.len();
    let mut i: usize = from;
    while i <= last
        invariant
            last + needle@.len() == hay@.len(),
            hay@.len() <= usize::MAX,
            needle@.len() > 0,
            from <= i,
            find_from(hay@, needle@, from as int) == find_from(hay@, needle@, i as int),
        decreases last + 1 - i,
    {
        if occurs(hay, needle, i) {
            return Some(i);
        }
        i = i + 1;
    }
    None
}

fn space3(a: u8, b: u8, c: u8) -> (r: bool)
    ensures
        r == is_space3(a, b, c),
{
    (a == 0xe1 && b == 0x9a && c == 0x80) || (a == 0xe2 && b == 0x80 && ((0x80 <= c && c <= 0x8a)
        || c == 0xa8 || c == 0xa9 || c == 0xaf)) || (a == 0xe2 && b == 0x81 && c == 0x9f) || (a
        == 0xe3 && b == 0x80 && c == 0x80)
}

/// The length of the whitespace character that `s[a..b]` starts with.
fn lead_at(s: &[u8], a: usize, b: usize) -> (r: usize)
    requires
        a <= b <= s@.len(),
    ensures
        r == lead_space(s@.subrange(a as int, b as int)),
{
    let n = b - a;
    let ghost t = s@.subrange(a as int, b as int);
    if n >= 1 && (s[a] == 0x20 || (0x09 <= s[a] && s[a] <= 0x0d)) {
        1
    } else if n >= 2 && s[a] == 0xc2 && (s[a + 1] == 0x85 || s[a + 1] == 0xa0) {
        2
    } else if n >= 3 && space3(s[a], s[a + 1], s[a + 2]) {
        3
    } else {
        assert(n >= 1 ==> t[0] == s@[a as int]);
        assert(n >= 2 ==> t[1] == s@[a + 1]);
        assert(n >= 3 ==> t[2] == s@[a + 2]);
        0
    }
}

/// The length of the whitespace character that `s[a..b]` ends with.
fn trail_at(s: &[u8], a: usize, b: usize) -> (r: usize)
    requires
        a <= b <= s@.len(),
    ensures
        r == trail_space(s@.subrange(a as int, b as int)),
{
    let n = b - a;
    let ghost t = s@.subrange(a as int, b as int);
    if n >= 1 && (s[b - 1] == 0x20 || (0x09 <= s[b - 1] && s[b - 1] <= 0x0d)) {
        1
    } else if n >= 2 && s[b - 2] == 0xc2 && (s[b - 1] == 0x85 || s[b - 1] == 0xa0) {
        2
    } else if n >= 3 && space3(s[b - 3], s[b - 2], s[b - 1]) {
        3
    } else {
        assert(n >= 1 ==> t[n - 1] == s@[b - 1]);
        assert(n >= 2 ==> t[n - 2] == s@[b - 2]);
        assert(n >= 3 ==> t[n - 3] == s@[b - 3]);
        0
    }
}

/// `s[start..end]` without its leading and trailing whitespace.
fn trimmed_copy(s: &[u8], start: usize, end: usize) -> (r: Vec<u8>)
    requires
        start <= end <= s@.len(),
    ensures
        r@ == trim_spaces(s@.subrange(start as int, end as int)),
{
    let mut a = start;
    let mut b = end;
    let mut k = lead_at(s, a, b);
    while k > 0
        invariant
            start <= a <= b == end <= s@.len(),
            k == lead_space(s@.subrange(a as int, b as int)),
            trim_spaces(s@.subrange(start as int, end as int)) == trim_spaces(
                s@.subrange(a as int, b as int),
            ),
        decreases b - a,
    {
        assert(s@.subrange(a as int, b as int).subrange(k as int, b - a) =~= s@.subrange(
            a + k,
            b as int,
        ));
        a = a + k;
        k = lead_at(s, a, b);
    }
    k = trail_at(s, a, b);
    while k > 0
        invariant
            start <= a <= b <= end <= s@.len(),
            lead_space(s@.subrange(a as int, b as int)) == 0,
            k == trail_space(s@.subrange(a as int, b as int)),
            trim_spaces(s@.subrange(start as int, end as int)) == trim_spaces(
                s@.subrange(a as int, b as int),
            ),
        decreases b - a,
    {
        assert(s@.subrange(a as int, b as int).subrange(0, b - a - k) =~= s@.subrange(
            a as int,
            b - k,
        ));
        b = b - k;
        let ghost t = s@.subrange(a as int, b as int);
        let ghost u = s@.subrange(a as int, b + k);
        assert(forall|i: int| 0 <= i < t.len() ==> t[i] == u[i]);
        k = trail_at(s, a, b);
    }
    let mut out: Vec<u8> = Vec::new();
    let mut i: usize = a;
    while i < b
        invariant
            a <= i <= b <= s@.len(),
            out@ == s@.subrange(a as int, i as int),
        decreases b - i,
    {
        out.push(s[i]);
        assert(out@ =~= s@.subrange(a as int, i + 1));
        i = i + 1;
    }
    assert(trim_spaces(s@.subrange(a as int, b as int)) == s@.subrange(a as int, b as int));
    out
}

/// Locates the document that the page assigns to its global variable: the
/// text between the first marker and the first terminator after it, without
/// surrounding whitespace. Fails with `MarkerNotFound` when the page holds no
/// marker, and with `MalformedDocument` when no terminator follows it.
pub fn extract_payload(html: &str) -> (r: Result<Vec<u8>, YahooError>)
    ensures
        r matches Ok(p) ==> spec_payload(html.spec_bytes()) == Ok::<Seq<u8>, YahooError>(p@),
        r matches Err(e) ==> spec_payload(html.spec_bytes()) == Err::<Seq<u8>, YahooError>(e),
{
    let page = html.as_bytes();
    let page_len = page.len();
    let marker = MARKER.as_bytes();
    let terminator = TERMINATOR.as_bytes();
    match find(page, marker, 0) {
        None => Err(YahooError::MarkerNotFound),
        Some(m) => {
            proof {
                lemma_find_from(page@, marker@, 0);
                assert(m + marker@.len() <= page_len);
            }
            let start = m + marker.len();
            match find(page, terminator, start) {
                None => Err(YahooError::MalformedDocument),
                Some(e) => {
                    proof {
                        lemma_find_from(page@, terminator@, start as int);
                    }
                    Ok(trimmed_copy(page, start, e))
                },
            }
        },
    }
}

/// The stores object at `context.dispatcher.stores`, if every step exists.
pub open spec fn spec_stores<F>(doc: JsonValue<F>) -> Option<JsonValue<F>> {
    match field(doc, "context"@) {
        None => None,
        Some(c) => match field(c, "dispatcher"@) {
            None => None,
            Some(d) => field(d, "stores"@),
        },
    }
}

/// Descends the fixed path `context.dispatcher.stores` of an embedded
/// document; fails with `SchemaMismatch` when a step is missing.
pub fn stores<F>(doc: &JsonValue<F>) -> (r: Result<&JsonValue<F>, YahooError>)
    ensures
        r is Err <==> spec_stores(*doc) is None,
        r matches Err(e) ==> e == YahooError::SchemaMismatch,
        r matches Ok(s) ==> spec_stores(*doc) == Some(*s),
{
    match doc.get("context") {
        None => Err(YahooError::SchemaMismatch),
        Some(c) => match c.get("dispatcher") {
            None => Err(YahooError::SchemaMismatch),
            Some(d) => match d.get("stores") {
                None => Err(YahooError::SchemaMismatch),
                Some(s) => Ok(s),
            },
        },
    }
}

} // verus!
