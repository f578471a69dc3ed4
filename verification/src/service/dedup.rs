//! The table behind request deduplication ("singleflight"): for each cache
//! key being processed, the handle through which waiters get the result.

use vstd::prelude::*;

use crate::utils::text::str_eq;

verus! {

/// A table from string keys to values, each key at most once. For
/// deduplication the keys are those in flight, each with the handle of the
/// job that computes it.
pub struct InFlight<T> {
    entries: Vec<(String, T)>,
}

/// No key occurs twice among the entries.
pub open spec fn keys_distinct<T>(s: Seq<(String, T)>) -> bool {
    forall|i: int, j: int|
        0 <= i < s.len() && 0 <= j < s.len() && i != j ==> #[trigger] s[i].0@ != #[trigger] s[j].0@
}

/// Some entry has key `k`.
pub open spec fn has_key<T>(s: Seq<(String, T)>, k: Seq<char>) -> bool {
    exists|i: int| 0 <= i < s.len() && (#[trigger] s[i]).0@ == k
}

/// The entries as a map from key to handle.
pub open spec fn entries_map<T>(s: Seq<(String, T)>) -> Map<Seq<char>, T> {
    Map::new(
        |k: Seq<char>| has_key(s, k),
        |k: Seq<char>| s[choose|i: int| 0 <= i < s.len() && (#[trigger] s[i]).0@ == k].1,
    )
}

proof fn lemma_entry_in_map<T>(s: Seq<(String, T)>, i: int)
    requires
        keys_distinct(s),
        0 <= i < s.len(),
    ensures
        entries_map(s).contains_key(s[i].0@),
        entries_map(s)[s[i].0@] == s[i].1,
{
    let k = s[i].0@;
    assert(has_key(s, k));
    let c = choose|j: int| 0 <= j < s.len() && (#[trigger] s[j]).0@ == k;
    assert(c == i);
}

proof fn lemma_push_new_key<T>(s: Seq<(String, T)>, e: (String, T))
    requires
        keys_distinct(s),
        !has_key(s, e.0@),
    ensures
        keys_distinct(s.push(e)),
        entries_map(s.push(e)) == entries_map(s).insert(e.0@, e.1),
{
    let t = s.push(e);
    let n = s.len() as int;
    assert forall|i: int, j: int|
        0 <= i < t.len() && 0 <= j < t.len() && i != j implies #[trigger] t[i].0@
        != #[trigger] t[j].0@ by {
        if i < n && j < n {
            assert(t[i] == s[i] && t[j] == s[j]);
        } else if i < n {
            assert(t[i] == s[i]);
        } else {
            assert(t[j] == s[j]);
        }
    }
    assert forall|k: Seq<char>| #[trigger] has_key(t, k) <==> (has_key(s, k) || k == e.0@) by {
        if has_key(s, k) {
            let i = choose|i: int| 0 <= i < n && (#[trigger] s[i]).0@ == k;
            assert(t[i] == s[i]);
        }
        if k == e.0@ {
            assert(t[n].0@ == k);
        }
        if has_key(t, k) && k != e.0@ {
            let i = choose|i: int| 0 <= i < t.len() && (#[trigger] t[i]).0@ == k;
            assert(t[i] == s[i]);
        }
    }
    assert forall|k: Seq<char>| #[trigger] entries_map(t).contains_key(k) implies entries_map(
        t,
    )[k] == entries_map(s).insert(e.0@, e.1)[k] by {
        let i = choose|i: int| 0 <= i < t.len() && (#[trigger] t[i]).0@ == k;
        lemma_entry_in_map(t, i);
        if i < n {
            assert(t[i] == s[i]);
            lemma_entry_in_map(s, i);
        }
    }
    assert(entries_map(t) =~= entries_map(s).insert(e.0@, e.1));
}

proof fn lemma_remove_entry<T>(s: Seq<(String, T)>, i: int)
    requires
        keys_distinct(s),
        0 <= i < s.len(),
    ensures
        keys_distinct(s.remove(i)),
        entries_map(s.remove(i)) == entries_map(s).remove(s[i].0@),
{
    let t = s.remove(i);
    let key = s[i].0@;
    let n = t.len() as int;
    assert forall|a: int, b: int|
        0 <= a < n && 0 <= b < n && a != b implies #[trigger] t[a].0@ != #[trigger] t[b].0@ by {
        let a0 = if a < i { a } else { a + 1 };
        let b0 = if b < i { b } else { b + 1 };
        assert(t[a] == s[a0]);
        assert(t[b] == s[b0]);
    }
    assert forall|k: Seq<char>| #[trigger] has_key(t, k) <==> (has_key(s, k) && k != key) by {
        if has_key(t, k) {
            let j = choose|j: int| 0 <= j < n && (#[trigger] t[j]).0@ == k;
            let j0 = if j < i { j } else { j + 1 };
            assert(t[j] == s[j0]);
        }
        if has_key(s, k) && k != key {
            let j0 = choose|j: int| 0 <= j < s.len() && (#[trigger] s[j]).0@ == k;
            assert(j0 != i);
            let j = if j0 < i { j0 } else { j0 - 1 };
            assert(t[j] == s[j0]);
        }
    }
    assert forall|k: Seq<char>| #[trigger] entries_map(t).contains_key(k) implies entries_map(
        t,
    )[k] == entries_map(s).remove(key)[k] by {
        let j = choose|j: int| 0 <= j < n && (#[trigger] t[j]).0@ == k;
        lemma_entry_in_map(t, j);
        let j0 = if j < i { j } else { j + 1 };
        assert(t[j] == s[j0]);
        lemma_entry_in_map(s, j0);
    }
    assert(entries_map(t) =~= entries_map(s).remove(key));
}

impl<T> InFlight<T> {
    #[verifier::type_invariant]
    spec fn distinct_keys(&self) -> bool {
        keys_distinct(self.entries@)
    }

    /// The keys in flight and their handles.
    pub closed spec fn view(&self) -> Map<Seq<char>, T> {
        entries_map(self.entries@)
    }

    /// An empty table.
    pub fn new() -> (r: Self)
        ensures
            r@ == Map::<Seq<char>, T>::empty(),
    {
        let r = InFlight { entries: Vec::new() };
        assert(r@ =~= Map::<Seq<char>, T>::empty());
        r
    }

    fn position(entries: &Vec<(String, T)>, key: &str) -> (r: Option<usize>)
        ensures
            match r {
                Some(i) => i < entries.len() && entries@[i as int].0@ == key@,
                None => !has_key(entries@, key@),
            },
    {
        let n = entries.len();
        let mut i: usize = 0;
        while i < n
            invariant
                n == entries.len(),
                i <= n,
                forall|j: int| 0 <= j < i ==> (#[trigger] entries@[j]).0@ != key@,
            decreases n - i,
        {
            if str_eq(entries[i].0.as_str(), key) {
                return Some(i);
            }
            i = i + 1;
        }
        None
    }

    /// The handle of the job computing `key`, if one is in flight.
    pub fn waiting_on(&self, key: &str) -> (r: Option<&T>)
        ensures
            match r {
                Some(v) => self@.contains_key(key@) && *v == self@[key@],
                None => !self@.contains_key(key@),
            },
    {
        proof {
            use_type_invariant(self);
        }
        match Self::position(&self.entries, key) {
            Some(i) => {
                proof {
                    lemma_entry_in_map(self.entries@, i as int);
                }
                Some(&self.entries[i].1)
            },
            None => None,
        }
    }

    /// Removes the entry of `key` from `entries`, if any, and gives back its
    /// handle.
    fn take_entry(entries: &mut Vec<(String, T)>, key: &str) -> (r: Option<T>)
        requires
            keys_distinct(old(entries)@),
        ensures
            keys_distinct(final(entries)@),
            !has_key(final(entries)@, key@),
            entries_map(final(entries)@) == entries_map(old(entries)@).remove(key@),
            match r {
                Some(v) => entries_map(old(entries)@).contains_key(key@) && v == entries_map(
                    old(entries)@,
                )[key@],
                None => !entries_map(old(entries)@).contains_key(key@),
            },
    {
        match Self::position(entries, key) {
            None => {
                assert(entries_map(entries@) =~= entries_map(old(entries)@).remove(key@));
                None
            },
            Some(i) => {
                proof {
                    lemma_entry_in_map(entries@, i as int);
                    lemma_remove_entry(entries@, i as int);
                }
                let (_, handle) = entries.remove(i);
                proof {
                    assert(!entries_map(entries@).contains_key(key@));
                }
                Some(handle)
            },
        }
    }

    /// Records that `key` is now computed by the job with handle `handle`.
    pub fn register(&mut self, key: &str, handle: T)
        ensures
            final(self)@ == old(self)@.insert(key@, handle),
    {
        proof {
            use_type_invariant(&*self);
        }
        let mut entries: Vec<(String, T)> = Vec::new();
        std::mem::swap(&mut entries, &mut self.entries);
        let _ = Self::take_entry(&mut entries, key);
        let entry = (key.to_owned(), handle);
        proof {
            lemma_push_new_key(entries@, entry);
        }
        entries.push(entry);
        self.entries = entries;
    }

    /// Records that the job for `key` is done; gives back its handle.
    pub fn finish(&mut self, key: &str) -> (r: Option<T>)
        ensures
            final(self)@ == old(self)@.remove(key@),
            match r {
                Some(v) => old(self)@.contains_key(key@) && v == old(self)@[key@],
                None => !old(self)@.contains_key(key@),
            },
    {
        proof {
            use_type_invariant(&*self);
        }
        let mut entries: Vec<(String, T)> = Vec::new();
        std::mem::swap(&mut entries, &mut self.entries);
        let r = Self::take_entry(&mut entries, key);
        self.entries = entries;
        r
    }
}

/// Singleflight: once a job registers for a key, callers for that key find
/// its handle; once it finishes, the key is free again; other keys are not
/// touched by either step.
pub proof fn lemma_single_flight<T>(m: Map<Seq<char>, T>, key: Seq<char>, handle: T, other: Seq<char>)
    requires
        other != key,
    ensures
        m.insert(key, handle).contains_key(key),
        m.insert(key, handle)[key] == handle,
        !m.insert(key, handle).remove(key).contains_key(key),
        m.insert(key, handle).remove(key).contains_key(other) == m.contains_key(other),
        m.contains_key(other) ==> m.insert(key, handle).remove(key)[other] == m[other],
{
}

/// What a waiter reports when the job it waited for failed (`Some` with
/// the job's error text) or vanished without a result (`None`).
pub open spec fn waiter_failure_text(upstream: Option<Seq<char>>) -> Seq<char> {
    match upstream {
        Some(e) => "dedup: upstream error: "@ + e,
        None => "dedup: in-flight sender dropped"@,
    }
}

/// The error text of a waiter whose job did not deliver bytes.
pub fn waiter_failure(upstream: Option<String>) -> (r: String)
    ensures
        r@ == waiter_failure_text(crate::utils::text::opt_string_chars(upstream)),
{
    match upstream {
        Some(e) => {
            let mut m = String::from_str("dedup: upstream error: ");
            m.append(e.as_str());
            m
        },
        None => String::from_str("dedup: in-flight sender dropped"),
    }
}

} // verus!
