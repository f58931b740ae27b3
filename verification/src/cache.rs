//! The bounded cache of synthesized phrases.

use vstd::prelude::*;

verus! {

/// The number of phrases that are kept.
pub const CACHE_CAPACITY: usize = 64;

/// A phrase and its samples.
pub type Entry = (Seq<char>, Seq<i16>);

/// The place of a phrase among the entries.
pub open spec fn place(entries: Seq<Entry>, key: Seq<char>) -> Option<int>
    decreases entries.len(),
{
    if entries.len() == 0 {
        None
    } else if entries.last().0 == key {
        Some(entries.len() - 1)
    } else {
        place(entries.drop_last(), key)
    }
}

/// The samples kept for a phrase.
pub open spec fn lookup(entries: Seq<Entry>, key: Seq<char>) -> Option<Seq<i16>> {
    match place(entries, key) {
        Some(i) => Some(entries[i].1),
        None => None,
    }
}

/// The entries after a phrase was fetched: it is now the newest.
pub open spec fn fetched(entries: Seq<Entry>, key: Seq<char>) -> Seq<Entry> {
    match place(entries, key) {
        Some(i) => entries.remove(i).push(entries[i]),
        None => entries,
    }
}

/// The entries after a phrase was stored: it is now the newest, in place of its
/// earlier samples, or of the oldest entry of a full cache.
pub open spec fn stored(entries: Seq<Entry>, key: Seq<char>, value: Seq<i16>) -> Seq<Entry> {
    match place(entries, key) {
        Some(i) => entries.remove(i),
        None => if entries.len() >= CACHE_CAPACITY {
            entries.drop_first()
        } else {
            entries
        },
    }.push((key, value))
}

/// No two entries are for the same phrase, and there are no more than fit.
pub open spec fn entries_valid(entries: Seq<Entry>) -> bool {
    &&& entries.len() <= CACHE_CAPACITY
    &&& forall|i: int, j: int|
        0 <= i < j < entries.len() ==> #[trigger] entries[i].0 != #[trigger] entries[j].0
}

/// Where a phrase is found, and that it is nowhere where it is not found.
pub proof fn lemma_place(entries: Seq<Entry>, key: Seq<char>)
    ensures
        match place(entries, key) {
            Some(i) => 0 <= i < entries.len() && entries[i].0 == key,
            None => forall|i: int| 0 <= i < entries.len() ==> #[trigger] entries[i].0 != key,
        },
    decreases entries.len(),
{
    if entries.len() > 0 && entries.last().0 != key {
        lemma_place(entries.drop_last(), key);
        assert forall|i: int|
            place(entries, key) is None && 0 <= i < entries.len() implies #[trigger] entries[i].0
            != key by {
            if i < entries.len() - 1 {
                assert(entries[i] == entries.drop_last()[i]);
            }
        }
    }
}

/// Among distinct phrases the place is the only one.
proof fn lemma_place_is(entries: Seq<Entry>, key: Seq<char>, i: int)
    requires
        entries_valid(entries),
        0 <= i < entries.len(),
        entries[i].0 == key,
    ensures
        place(entries, key) == Some(i),
{
    lemma_place(entries, key);
    let j = place(entries, key)->0;
    if j < i {
        assert(entries[j].0 != entries[i].0);
    } else if i < j {
        assert(entries[i].0 != entries[j].0);
    }
}

/// A least-recently-used cache of phrases.
pub struct CacheState {
    /// The phrases, the least recently used first.
    pub order: Vec<String>,
    /// The samples of each phrase, in the same order.
    pub values: Vec<Vec<i16>>,
}

impl View for CacheState {
    type V = Seq<Entry>;

    open spec fn view(&self) -> Seq<Entry> {
        Seq::new(self.order@.len(), |i: int| (self.order@[i]@, self.values@[i]@))
    }
}

impl CacheState {
    /// Every phrase has its samples, no phrase occurs twice, and there are no
    /// more than fit.
    pub open spec fn well_formed(&self) -> bool {
        &&& self.order@.len() == self.values@.len()
        &&& entries_valid(self@)
    }

    /// An empty cache.
    pub fn new() -> (r: Self)
        ensures
            r.well_formed(),
            r@ == Seq::<Entry>::empty(),
    {
        let r = CacheState { order: Vec::new(), values: Vec::new() };
        assert(r@ == Seq::<Entry>::empty());
        r
    }

    fn find(&self, key: &String) -> (r: Option<usize>)
        requires
            self.well_formed(),
        ensures
            match r {
                Some(i) => place(self@, key@) == Some(i as int) && i < self.order@.len(),
                None => place(self@, key@) is None,
            },
    {
        let mut i: usize = 0;
        while i < self.order.len()
            invariant
                self.well_formed(),
                i <= self.order.len(),
                forall|j: int| 0 <= j < i ==> #[trigger] self@[j].0 != key@,
            decreases self.order.len() - i,
        {
            if self.order[i] == *key {
                proof {
                    lemma_place_is(self@, key@, i as int);
                }
                return Some(i);
            }
            i += 1;
        }
        proof {
            lemma_place(self@, key@);
        }
        None
    }

    /// Fetches the samples of a phrase and makes it the newest.
    pub fn get(&mut self, key: &str) -> (r: Option<Vec<i16>>)
        requires
            old(self).well_formed(),
        ensures
            final(self).well_formed(),
            final(self)@ == fetched(old(self)@, key@),
            match r {
                Some(v) => lookup(old(self)@, key@) == Some(v@),
                None => lookup(old(self)@, key@) is None,
            },
    {
        let k: String = key.to_owned();
        let ghost before = self@;
        match self.find(&k) {
            Some(i) => {
                let name = self.order.remove(i);
                let value = self.values.remove(i);
                let copy = value.clone();
                assert(copy@ == value@);
                self.order.push(name);
                self.values.push(value);
                assert(self@ == before.remove(i as int).push(before[i as int]));
                Some(copy)
            },
            None => None,
        }
    }

    /// Stores the samples of a phrase as the newest entry.
    pub fn insert(&mut self, key: String, value: Vec<i16>)
        requires
            old(self).well_formed(),
        ensures
            final(self).well_formed(),
            final(self)@ == stored(old(self)@, key@, value@),
    {
        let ghost before = self@;
        proof {
            lemma_place(before, key@);
        }
        match self.find(&key) {
            Some(i) => {
                self.order.remove(i);
                self.values.remove(i);
                assert(self@ == before.remove(i as int));
            },
            None => {
                if self.order.len() >= CACHE_CAPACITY {
                    self.order.remove(0);
                    self.values.remove(0);
                    assert(self@ == before.drop_first());
                }
            },
        }
        let ghost kept = self@;
        self.order.push(key);
        self.values.push(value);
        assert(self@ == kept.push((key@, value@)));
    }
}

/// A phrase that was stored is found with its samples.
pub proof fn law_stored_phrase_is_found(entries: Seq<Entry>, key: Seq<char>, value: Seq<i16>)
    ensures
        lookup(stored(entries, key, value), key) == Some(value),
{
}

/// Storing keeps the cache valid.
pub proof fn law_storing_keeps_the_bound(entries: Seq<Entry>, key: Seq<char>, value: Seq<i16>)
    requires
        entries_valid(entries),
    ensures
        entries_valid(stored(entries, key, value)),
{
    lemma_place(entries, key);
}

/// Storing one phrase leaves the samples of another as they were, unless the
/// cache was full and the other was the least recently used.
pub proof fn law_storing_evicts_only_the_oldest(
    entries: Seq<Entry>,
    key: Seq<char>,
    value: Seq<i16>,
    other: Seq<char>,
)
    requires
        entries_valid(entries),
        other != key,
    ensures
        lookup(stored(entries, key, value), other) == (if place(entries, key) is None
            && entries.len() >= CACHE_CAPACITY && entries[0].0 == other {
            None
        } else {
            lookup(entries, other)
        }),
{
    lemma_place(entries, key);
    lemma_place(entries, other);
    law_storing_keeps_the_bound(entries, key, value);
    let after = stored(entries, key, value);
    lemma_place(after, other);
    match place(entries, other) {
        Some(j) => {
            let gone = match place(entries, key) {
                Some(i) => i,
                None => if entries.len() >= CACHE_CAPACITY {
                    0
                } else {
                    entries.len() as int
                },
            };
            if j < gone {
                assert(after[j] == entries[j]);
                lemma_place_is(after, other, j);
            } else if j > gone {
                assert(after[j - 1] == entries[j]);
                lemma_place_is(after, other, j - 1);
            } else if place(after, other) is Some {
                let m = place(after, other)->0;
                assert(after[m] == entries[m + 1]);
            }
        },
        None => {
            if let Some(m) = place(after, other) {
                assert(after[m].0 == other);
                assert(m < after.len() - 1);
                match place(entries, key) {
                    Some(i) => {
                        assert(after[m] == entries[if m < i {
                            m
                        } else {
                            m + 1
                        }]);
                    },
                    None => {
                        if entries.len() >= CACHE_CAPACITY {
                            assert(after[m] == entries[m + 1]);
                        } else {
                            assert(after[m] == entries[m]);
                        }
                    },
                }
            }
        },
    }
}

/// Fetching changes no samples: every phrase is found as before.
pub proof fn law_fetching_keeps_every_phrase(
    entries: Seq<Entry>,
    key: Seq<char>,
    other: Seq<char>,
)
    requires
        entries_valid(entries),
    ensures
        entries_valid(fetched(entries, key)),
        lookup(fetched(entries, key), other) == lookup(entries, other),
        place(entries, key) is Some ==> fetched(entries, key).last().0 == key,
{
    lemma_place(entries, key);
    lemma_place(entries, other);
    let after = fetched(entries, key);
    lemma_place(after, other);
    if let Some(i) = place(entries, key) {
        match place(entries, other) {
            Some(j) => {
                if j < i {
                    assert(after[j] == entries[j]);
                    lemma_place_is(after, other, j);
                } else if j > i {
                    assert(after[j - 1] == entries[j]);
                    lemma_place_is(after, other, j - 1);
                }
            },
            None => {
                if let Some(m) = place(after, other) {
                    assert(after[m] == entries[if m == after.len() - 1 {
                        i
                    } else if m < i {
                        m
                    } else {
                        m + 1
                    }]);
                }
            },
        }
    }
}

/// A cache of fewer than 64 phrases loses none of them by storing another, and a full one
/// loses exactly one, which no fetch or store was about since all the others.
pub proof fn law_cache_holds_sixty_four_phrases(
    entries: Seq<Entry>,
    key: Seq<char>,
    value: Seq<i16>,
    other: Seq<char>,
)
    requires
        entries_valid(entries),
        other != key,
    ensures
        entries.len() < 64 ==> lookup(stored(entries, key, value), other) == lookup(
            entries,
            other,
        ),
        lookup(entries, key) is Some ==> lookup(stored(entries, key, value), other) == lookup(
            entries,
            other,
        ) && stored(entries, key, value).len() == entries.len(),
        lookup(entries, key) is None && entries.len() < 64 ==> stored(entries, key, value).len()
            == entries.len() + 1,
        lookup(entries, key) is None && entries.len() == 64 ==> stored(entries, key, value).len()
            == 64 && lookup(stored(entries, key, value), entries[0].0) is None,
        stored(entries, key, value).last() == (key, value),
{
    law_storing_evicts_only_the_oldest(entries, key, value, other);
    lemma_place(entries, key);
    if lookup(entries, key) is None && entries.len() == 64 {
        let first = entries[0].0;
        assert(first != key);
        law_storing_evicts_only_the_oldest(entries, key, value, first);
    }
}

/// Fetching a phrase and storing one keep the order of all the others: of two of them, the
/// one that was older before is older still.
pub proof fn law_other_phrases_keep_their_order(
    entries: Seq<Entry>,
    key: Seq<char>,
    value: Seq<i16>,
    i: int,
    j: int,
)
    requires
        entries_valid(entries),
        0 <= i < j < entries.len(),
        entries[i].0 != key,
        entries[j].0 != key,
    ensures
        ({
            let (older, newer) = (entries[i].0, entries[j].0);
            let (f, s) = (fetched(entries, key), stored(entries, key, value));
            &&& place(f, older) is Some && place(f, newer) is Some
            &&& place(f, older)->0 < place(f, newer)->0
            &&& place(s, newer) is Some
            &&& place(s, older) is Some ==> place(s, older)->0 < place(s, newer)->0
        }),
{
    let (older, newer) = (entries[i].0, entries[j].0);
    let (f, s) = (fetched(entries, key), stored(entries, key, value));
    law_fetching_keeps_every_phrase(entries, key, key);
    law_storing_keeps_the_bound(entries, key, value);
    lemma_place(entries, key);
    match place(entries, key) {
        Some(p) => {
            let a = if i < p {
                i
            } else {
                i - 1
            };
            let b = if j < p {
                j
            } else {
                j - 1
            };
            assert(f[a] == entries[i] && f[b] == entries[j]);
            assert(s[a] == entries[i] && s[b] == entries[j]);
            lemma_place_is(f, older, a);
            lemma_place_is(f, newer, b);
            lemma_place_is(s, older, a);
            lemma_place_is(s, newer, b);
        },
        None => {
            lemma_place_is(f, older, i);
            lemma_place_is(f, newer, j);
            let shift: int = if entries.len() >= CACHE_CAPACITY {
                1
            } else {
                0
            };
            assert(s[j - shift] == entries[j]);
            lemma_place_is(s, newer, j - shift);
            if i >= shift {
                assert(s[i - shift] == entries[i]);
                lemma_place_is(s, older, i - shift);
            } else {
                lemma_place(s, older);
                if let Some(q) = place(s, older) {
                    assert(s[q].0 == older);
                    if q < s.len() - 1 {
                        assert(s[q] == entries[q + 1]);
                        assert(entries[0].0 != entries[q + 1].0);
                    }
                }
            }
        },
    }
}

} // verus!
