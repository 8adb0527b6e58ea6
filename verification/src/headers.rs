//! The header map of a request or a response: text keys, each at most once,
//! kept in the order in which they were first given. The map compares keys
//! as they are written; requests and responses give it their keys in lower
//! case, so that the name of a header counts whatever its case.

use crate::text::{ascii_lower, same_text};
use vstd::prelude::*;

verus! {

/// One header: its key and its value.
pub type Entry = (Seq<char>, Seq<char>);

/// The position of the entry with key `k`.
pub open spec fn position(h: Seq<Entry>, k: Seq<char>) -> Option<int>
    decreases h.len(),
{
    if h.len() == 0 {
        None
    } else {
        match position(h.drop_last(), k) {
            Some(i) => Some(i),
            None => if h.last().0 == k {
                Some(h.len() - 1)
            } else {
                None
            },
        }
    }
}

/// The value that the map holds for key `k`.
pub open spec fn lookup(h: Seq<Entry>, k: Seq<char>) -> Option<Seq<char>> {
    match position(h, k) {
        Some(i) => Some(h[i].1),
        None => None,
    }
}

/// The map after `k` is given the value `v`: an entry with that key has its
/// value replaced where it stands, a new key goes to the end.
pub open spec fn with_entry(h: Seq<Entry>, k: Seq<char>, v: Seq<char>) -> Seq<Entry> {
    match position(h, k) {
        Some(i) => h.update(i, (k, v)),
        None => h.push((k, v)),
    }
}

/// No key occurs twice.
pub open spec fn distinct_keys(h: Seq<Entry>) -> bool {
    forall|i: int, j: int| 0 <= i < j < h.len() ==> h[i].0 != h[j].0
}

/// Every key is in lower case: it holds no ASCII capital.
pub open spec fn lower_keys(h: Seq<Entry>) -> bool {
    forall|i: int| 0 <= i < h.len() ==> (#[trigger] h[i]).0 == ascii_lower(h[i].0)
}

/// No two keys are the same text once capitals count as small letters.
pub open spec fn distinct_ignoring_case(h: Seq<Entry>) -> bool {
    forall|i: int, j: int|
        0 <= i < j < h.len() ==> ascii_lower((#[trigger] h[i]).0) != ascii_lower(
            (#[trigger] h[j]).0,
        )
}

/// Keys in lower case that differ as they stand differ whatever the case.
pub proof fn lemma_lower_keys_distinct(h: Seq<Entry>)
    requires
        lower_keys(h),
        distinct_keys(h),
    ensures
        distinct_ignoring_case(h),
{
}

/// A key in lower case leaves the keys of the map in lower case.
pub proof fn lemma_with_entry_lower(h: Seq<Entry>, k: Seq<char>, v: Seq<char>)
    requires
        lower_keys(h),
        k == ascii_lower(k),
    ensures
        lower_keys(with_entry(h, k, v)),
{
    lemma_position(h, k);
}

/// `position` finds the first entry with the key, and finds none only if no
/// entry has it.
pub proof fn lemma_position(h: Seq<Entry>, k: Seq<char>)
    ensures
        match position(h, k) {
            Some(i) => 0 <= i < h.len() && h[i].0 == k && forall|j: int|
                0 <= j < i ==> h[j].0 != k,
            None => forall|j: int| 0 <= j < h.len() ==> h[j].0 != k,
        },
    decreases h.len(),
{
    if h.len() > 0 {
        lemma_position(h.drop_last(), k);
        assert(forall|j: int| 0 <= j < h.len() - 1 ==> h.drop_last()[j] == h[j]);
    }
}

/// Giving a key a value keeps the keys distinct, and the key then has that
/// value while every other key keeps its own.
pub proof fn lemma_with_entry(h: Seq<Entry>, k: Seq<char>, v: Seq<char>)
    requires
        distinct_keys(h),
    ensures
        distinct_keys(with_entry(h, k, v)),
        lookup(with_entry(h, k, v), k) == Some(v),
        forall|other: Seq<char>|
            other != k ==> lookup(with_entry(h, k, v), other) == lookup(h, other),
{
    let g = with_entry(h, k, v);
    lemma_position(h, k);
    lemma_position(g, k);
    assert(forall|j: int| 0 <= j < h.len() ==> (#[trigger] g[j]).0 == h[j].0);
    match position(h, k) {
        Some(i) => {
            assert(g[i] == (k, v));
            assert(position(g, k) == Some(i));
        },
        None => {
            assert(g[h.len() as int] == (k, v));
            assert(position(g, k) == Some(h.len() as int));
        },
    }
    assert forall|other: Seq<char>| other != k implies lookup(g, other) == lookup(h, other) by {
        lemma_position(h, other);
        lemma_position(g, other);
        match position(h, other) {
            Some(i) => {
                assert(g[i].0 == other);
                assert(g[i] == h[i]);
            },
            None => {},
        }
    }
}

/// A map from text to text, such as the headers of a request.
pub struct Headers {
    entries: Vec<(String, String)>,
}

impl View for Headers {
    type V = Seq<Entry>;

    closed spec fn view(&self) -> Seq<Entry> {
        entries_view(self.entries@)
    }
}

spec fn entries_view(e: Seq<(String, String)>) -> Seq<Entry> {
    Seq::new(e.len(), |i: int| (e[i].0@, e[i].1@))
}

impl Headers {
    #[verifier::type_invariant]
    spec fn keys_are_distinct(self) -> bool {
        distinct_keys(self@)
    }

    /// The empty map.
    pub fn new() -> (r: Self)
        ensures
            r@ == Seq::<Entry>::empty(),
    {
        let entries: Vec<(String, String)> = Vec::new();
        assert(entries_view(entries@) =~= Seq::<Entry>::empty());
        Headers { entries }
    }

    /// The number of entries.
    pub fn len(&self) -> (n: usize)
        ensures
            n == self@.len(),
            distinct_keys(self@),
    {
        proof {
            use_type_invariant(self);
        }
        self.entries.len()
    }

    /// The key of the entry at position `i`.
    pub fn key_at(&self, i: usize) -> (k: &String)
        requires
            i < self@.len(),
        ensures
            k@ == self@[i as int].0,
    {
        &self.entries[i].0
    }

    /// The value of the entry at position `i`.
    pub fn value_at(&self, i: usize) -> (v: &String)
        requires
            i < self@.len(),
        ensures
            v@ == self@[i as int].1,
    {
        &self.entries[i].1
    }

    fn index_of(&self, k: &str) -> (r: Option<usize>)
        ensures
            match r {
                Some(i) => position(self@, k@) == Some(i as int) && i < self@.len(),
                None => position(self@, k@) is None,
            },
    {
        let mut i: usize = 0;
        while i < self.entries.len()
            invariant
                i <= self@.len(),
                self@.len() == self.entries@.len(),
                position(self@.take(i as int), k@) is None,
            decreases self@.len() - i,
        {
            if same_text(self.entries[i].0.as_str(), k) {
                proof {
                    lemma_position(self@, k@);
                    lemma_position(self@.take(i as int), k@);
                    assert(self@[i as int].0 == k@);
                    assert forall|j: int| 0 <= j < i implies self@[j].0 != k@ by {
                        assert(self@.take(i as int)[j] == self@[j]);
                    }
                }
                return Some(i);
            }
            proof {
                assert(self@.take(i + 1).drop_last() =~= self@.take(i as int));
            }
            i += 1;
        }
        assert(self@ =~= self@.take(i as int));
        None
    }

    /// The value that the map holds for `k`.
    pub fn get(&self, k: &str) -> (r: Option<&String>)
        ensures
            match r {
                Some(v) => lookup(self@, k@) == Some(v@),
                None => lookup(self@, k@) is None,
            },
    {
        match self.index_of(k) {
            Some(i) => Some(&self.entries[i].1),
            None => None,
        }
    }

    /// Whether the map holds a value for `k`.
    pub fn contains_key(&self, k: &str) -> (r: bool)
        ensures
            r == (lookup(self@, k@) is Some),
    {
        self.index_of(k).is_some()
    }

    /// Gives `k` the value `v`.
    pub fn insert(&mut self, k: String, v: String)
        ensures
            final(self)@ == with_entry(old(self)@, k@, v@),
            distinct_keys(final(self)@),
    {
        proof {
            use_type_invariant(&*self);
            lemma_with_entry(self@, k@, v@);
        }
        let ghost before = self@;
        let found = self.index_of(k.as_str());
        let mut entries: Vec<(String, String)> = Vec::new();
        core::mem::swap(&mut self.entries, &mut entries);
        match found {
            Some(i) => {
                entries.set(i, (k, v));
            },
            None => {
                entries.push((k, v));
            },
        }
        assert(entries_view(entries@) =~= with_entry(before, k@, v@));
        core::mem::swap(&mut self.entries, &mut entries);
    }
}

impl Clone for Headers {
    fn clone(&self) -> (r: Self)
        ensures
            r@ == self@,
    {
        proof {
            use_type_invariant(self);
        }
        let mut entries: Vec<(String, String)> = Vec::new();
        let mut i: usize = 0;
        while i < self.entries.len()
            invariant
                i <= self.entries@.len(),
                entries@.len() == i,
                forall|j: int|
                    0 <= j < i ==> entries@[j].0@ == self.entries@[j].0@ && entries@[j].1@
                        == self.entries@[j].1@,
            decreases self.entries@.len() - i,
        {
            entries.push((self.entries[i].0.clone(), self.entries[i].1.clone()));
            i += 1;
        }
        assert(entries_view(entries@) =~= self@);
        Headers { entries }
    }
}

} // verus!
