use vstd::prelude::*;

verus! {

/// Whether `s` holds a value at index `i`.
pub open spec fn has_value<T>(s: Seq<Option<T>>, i: int) -> bool {
    0 <= i < s.len() && s[i] is Some
}

/// The index of the most recent entry of `s` that holds a value, if any.
pub open spec fn latest_index<T>(s: Seq<Option<T>>) -> Option<int>
    decreases s.len(),
{
    if s.len() == 0 {
        None
    } else if s.last() is Some {
        Some(s.len() - 1)
    } else {
        latest_index(s.drop_last())
    }
}

/// A found index holds a value, and nothing after it does; `None` means that
/// no entry holds a value.
pub proof fn lemma_latest_index<T>(s: Seq<Option<T>>)
    ensures
        match latest_index(s) {
            Some(i) => has_value(s, i) && forall|j: int| i < j < s.len() ==> s[j] is None,
            None => forall|j: int| 0 <= j < s.len() ==> s[j] is None,
        },
    decreases s.len(),
{
    if s.len() > 0 && s.last() is None {
        lemma_latest_index(s.drop_last());
        assert(forall|j: int| 0 <= j < s.len() - 1 ==> s.drop_last()[j] == s[j]);
    }
}

/// Scans `entries` from the most recent end backward and returns the index of
/// the first entry that holds a value.
pub fn latest_present<T>(entries: &Vec<Option<T>>) -> (r: Option<usize>)
    ensures
        r matches Some(i) ==> latest_index(entries@) == Some(i as int),
        r is None ==> latest_index(entries@) is None,
{
    let mut i: usize = entries.len();
    assert(entries@.subrange(0, i as int) =~= entries@);
    while i > 0
        invariant
            i <= entries@.len(),
            latest_index(entries@) == latest_index(entries@.subrange(0, i as int)),
        decreases i,
    {
        let ghost pre = entries@.subrange(0, i as int);
        assert(pre.drop_last() =~= entries@.subrange(0, i - 1));
        if entries[i - 1].is_some() {
            return Some(i - 1);
        }
        i = i - 1;
    }
    None
}

} // verus!
