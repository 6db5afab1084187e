//! A bounded in-memory cache from a request's fingerprint to the answer it
//! got.
//!
//! Entries are kept in the order in which they were last written. When a
//! new fingerprint arrives at a full cache, the entry written longest ago
//! makes room.

use crate::models::AIRequest;
use crate::text::same_text;
use vstd::prelude::*;

verus! {

/// One cached exchange.
#[derive(Debug)]
struct CacheEntry {
    key: String,
    value: String,
}

/// Mathematical value of a [`ResponseCache`].
pub struct CacheView {
    /// Fingerprint and answer, the entry written longest ago first.
    pub entries: Seq<(Seq<char>, Seq<char>)>,
    /// How many entries the cache keeps.
    pub capacity: nat,
}

/// The position of the first entry at or after `from` that has the key; the
/// number of entries where there is none.
pub open spec fn index_from(entries: Seq<(Seq<char>, Seq<char>)>, key: Seq<char>, from: int) -> int
    decreases entries.len() - from,
{
    if from < 0 || from >= entries.len() {
        entries.len() as int
    } else if entries[from].0 == key {
        from
    } else {
        index_from(entries, key, from + 1)
    }
}

/// The position of the entry with the key, if there is one.
pub open spec fn position(entries: Seq<(Seq<char>, Seq<char>)>, key: Seq<char>) -> Option<int> {
    let i = index_from(entries, key, 0);
    if i < entries.len() {
        Some(i)
    } else {
        None
    }
}

/// The answer cached under the key, if there is one.
pub open spec fn lookup(entries: Seq<(Seq<char>, Seq<char>)>, key: Seq<char>) -> Option<
    Seq<char>,
> {
    match position(entries, key) {
        Some(i) => Some(entries[i].1),
        None => None,
    }
}

/// No fingerprint occurs twice.
pub open spec fn distinct_keys(entries: Seq<(Seq<char>, Seq<char>)>) -> bool {
    forall|i: int, j: int|
        0 <= i < j < entries.len() ==> (#[trigger] entries[i]).0 != (#[trigger] entries[j]).0
}

/// A cache is well formed when no fingerprint occurs twice and it holds no
/// more entries than it keeps.
pub open spec fn well_formed(c: CacheView) -> bool {
    distinct_keys(c.entries) && c.entries.len() <= c.capacity
}

/// The cache after `value` was written under `key`: an earlier entry of the
/// key is replaced; else, at a full cache, the first entry is dropped. The
/// new entry comes last. A cache that keeps nothing stays empty.
pub open spec fn after_insert(c: CacheView, key: Seq<char>, value: Seq<char>) -> CacheView {
    if c.capacity == 0 {
        c
    } else {
        let kept = match position(c.entries, key) {
            Some(i) => c.entries.remove(i),
            None => if c.entries.len() >= c.capacity {
                c.entries.drop_first()
            } else {
                c.entries
            },
        };
        CacheView { entries: kept.push((key, value)), capacity: c.capacity }
    }
}

/// Fingerprint and answer of each stored exchange.
pub open spec fn exchanges(rows: Seq<AIRequest>) -> Seq<(Seq<char>, Seq<char>)> {
    Seq::new(rows.len(), |i: int| (rows[i].messages@, rows[i].response@))
}

/// The cache after the first `n` of `rows` were written, in order.
pub open spec fn after_inserts(c: CacheView, rows: Seq<(Seq<char>, Seq<char>)>, n: int) -> CacheView
    decreases n,
{
    if n <= 0 || n > rows.len() {
        c
    } else {
        after_insert(after_inserts(c, rows, n - 1), rows[n - 1].0, rows[n - 1].1)
    }
}

/// What `index_from` finds: the first entry with the key from `from` on.
pub proof fn lemma_index_from(entries: Seq<(Seq<char>, Seq<char>)>, key: Seq<char>, from: int)
    requires
        0 <= from <= entries.len(),
    ensures
        from <= index_from(entries, key, from) <= entries.len(),
        index_from(entries, key, from) < entries.len() ==> entries[index_from(
            entries,
            key,
            from,
        )].0 == key,
        forall|j: int|
            from <= j < index_from(entries, key, from) ==> (#[trigger] entries[j]).0 != key,
    decreases entries.len() - from,
{
    if from < entries.len() && entries[from].0 != key {
        lemma_index_from(entries, key, from + 1);
    }
}

/// Where no fingerprint occurs twice, an entry is found under its key.
pub proof fn lemma_lookup_entry(entries: Seq<(Seq<char>, Seq<char>)>, i: int)
    requires
        distinct_keys(entries),
        0 <= i < entries.len(),
    ensures
        position(entries, entries[i].0) == Some(i),
        lookup(entries, entries[i].0) == Some(entries[i].1),
{
    lemma_index_from(entries, entries[i].0, 0);
    let found = index_from(entries, entries[i].0, 0);
    if found > i {
        assert(entries[i].0 != entries[i].0);
    }
    if found < i {
        assert(entries[found].0 != entries[i].0);
    }
}

/// A key that no entry has is not found.
pub proof fn lemma_lookup_absent(entries: Seq<(Seq<char>, Seq<char>)>, key: Seq<char>)
    requires
        forall|i: int| 0 <= i < entries.len() ==> (#[trigger] entries[i]).0 != key,
    ensures
        position(entries, key) is None,
        lookup(entries, key) is None,
{
    lemma_index_from(entries, key, 0);
}

/// Writing keeps a cache well formed.
pub proof fn lemma_insert_well_formed(c: CacheView, key: Seq<char>, value: Seq<char>)
    requires
        well_formed(c),
    ensures
        well_formed(after_insert(c, key, value)),
{
    if c.capacity > 0 {
        lemma_index_from(c.entries, key, 0);
        let after = after_insert(c, key, value).entries;
        match position(c.entries, key) {
            Some(i) => {
                let kept = c.entries.remove(i);
                assert forall|a: int| 0 <= a < kept.len() implies (#[trigger] kept[a]).0
                    != key by {
                    if a < i {
                        assert(kept[a] == c.entries[a]);
                    } else {
                        assert(kept[a] == c.entries[a + 1]);
                    }
                }
                assert forall|a: int, b: int| 0 <= a < b < after.len() implies (
                #[trigger] after[a]).0 != (#[trigger] after[b]).0 by {
                    if b < kept.len() {
                        let sa = if a < i {
                            a
                        } else {
                            a + 1
                        };
                        let sb = if b < i {
                            b
                        } else {
                            b + 1
                        };
                        assert(after[a] == c.entries[sa]);
                        assert(after[b] == c.entries[sb]);
                    } else {
                        assert(after[a] == kept[a]);
                    }
                }
            },
            None => {
                let kept = if c.entries.len() >= c.capacity {
                    c.entries.drop_first()
                } else {
                    c.entries
                };
                let shift: int = if c.entries.len() >= c.capacity {
                    1
                } else {
                    0
                };
                assert forall|a: int, b: int| 0 <= a < b < after.len() implies (
                #[trigger] after[a]).0 != (#[trigger] after[b]).0 by {
                    assert(after[a] == c.entries[a + shift]);
                    if b < kept.len() {
                        assert(after[b] == c.entries[b + shift]);
                    }
                }
            },
        }
    }
}

/// What was written is what is read.
pub proof fn lemma_lookup_after_insert(c: CacheView, key: Seq<char>, value: Seq<char>)
    requires
        well_formed(c),
        c.capacity > 0,
    ensures
        lookup(after_insert(c, key, value).entries, key) == Some(value),
{
    lemma_insert_well_formed(c, key, value);
    let after = after_insert(c, key, value).entries;
    lemma_lookup_entry(after, after.len() - 1);
}

/// A write that drops nothing leaves every other fingerprint as it was:
/// what could be read before can be read after, with the same answer.
pub proof fn lemma_insert_keeps_others(
    c: CacheView,
    key: Seq<char>,
    value: Seq<char>,
    other: Seq<char>,
)
    requires
        well_formed(c),
        c.capacity > 0,
        other != key,
        position(c.entries, key) is Some || c.entries.len() < c.capacity,
    ensures
        lookup(after_insert(c, key, value).entries, other) == lookup(c.entries, other),
{
    lemma_insert_well_formed(c, key, value);
    lemma_index_from(c.entries, key, 0);
    lemma_index_from(c.entries, other, 0);
    let after = after_insert(c, key, value).entries;
    match position(c.entries, other) {
        Some(at) => {
            let moved = match position(c.entries, key) {
                Some(i) => if at < i {
                    at
                } else {
                    at - 1
                },
                None => at,
            };
            assert(after[moved] == c.entries[at]);
            lemma_lookup_entry(after, moved);
        },
        None => {
            assert forall|a: int| 0 <= a < after.len() implies (#[trigger] after[a]).0
                != other by {
                if a < after.len() - 1 {
                    match position(c.entries, key) {
                        Some(i) => {
                            if a < i {
                                assert(after[a] == c.entries[a]);
                            } else {
                                assert(after[a] == c.entries[a + 1]);
                            }
                        },
                        None => {
                            assert(after[a] == c.entries[a]);
                        },
                    }
                }
            }
            lemma_lookup_absent(after, other);
        },
    }
}

/// A write to a full cache under a new fingerprint drops the entry written
/// longest ago and nothing else.
pub proof fn lemma_insert_evicts_oldest(
    c: CacheView,
    key: Seq<char>,
    value: Seq<char>,
    other: Seq<char>,
)
    requires
        well_formed(c),
        c.capacity > 0,
        position(c.entries, key) is None,
        c.entries.len() == c.capacity,
        other != key,
    ensures
        lookup(after_insert(c, key, value).entries, other) == (if other == c.entries[0].0 {
            None
        } else {
            lookup(c.entries, other)
        }),
{
    lemma_insert_well_formed(c, key, value);
    lemma_index_from(c.entries, key, 0);
    lemma_index_from(c.entries, other, 0);
    let after = after_insert(c, key, value).entries;
    assert forall|a: int| 0 <= a < after.len() - 1 implies #[trigger] after[a] == c.entries[a
        + 1] by {}
    if other != c.entries[0].0 && position(c.entries, other) is Some {
        let at = position(c.entries, other)->0;
        assert(after[at - 1] == c.entries[at]);
        lemma_lookup_entry(after, at - 1);
    } else {
        assert forall|a: int| 0 <= a < after.len() implies (#[trigger] after[a]).0 != other by {
            if a < after.len() - 1 {
                assert(after[a] == c.entries[a + 1]);
                if other == c.entries[0].0 {
                    assert(c.entries[0].0 != c.entries[a + 1].0);
                }
            }
        }
        lemma_lookup_absent(after, other);
    }
}

/// The cache of answers.
#[derive(Debug)]
pub struct ResponseCache {
    entries: Vec<CacheEntry>,
    capacity: usize,
}

impl View for ResponseCache {
    type V = CacheView;

    closed spec fn view(&self) -> CacheView {
        CacheView {
            entries: Seq::new(
                self.entries@.len(),
                |i: int| (self.entries@[i].key@, self.entries@[i].value@),
            ),
            capacity: self.capacity as nat,
        }
    }
}

impl ResponseCache {
    #[verifier::type_invariant]
    closed spec fn entries_well_formed(self) -> bool {
        well_formed(self@)
    }

    /// An empty cache that keeps up to `capacity` entries.
    pub fn new(capacity: usize) -> (c: ResponseCache)
        ensures
            c@.entries == Seq::<(Seq<char>, Seq<char>)>::empty(),
            c@.capacity == capacity,
            well_formed(c@),
    {
        let c = ResponseCache { entries: Vec::new(), capacity };
        assert(c@.entries =~= Seq::<(Seq<char>, Seq<char>)>::empty());
        c
    }

    /// The number of entries held: never more than the cache keeps.
    pub fn len(&self) -> (n: usize)
        ensures
            n == self@.entries.len(),
            n <= self@.capacity,
            well_formed(self@),
    {
        proof {
            use_type_invariant(self);
        }
        self.entries.len()
    }

    /// The number of entries kept at most.
    pub fn capacity(&self) -> (n: usize)
        ensures
            n == self@.capacity,
    {
        self.capacity
    }

    fn find(&self, key: &str) -> (found: Option<usize>)
        ensures
            match found {
                Some(i) => position(self@.entries, key@) == Some(i as int),
                None => position(self@.entries, key@) is None,
            },
    {
        let mut i: usize = 0;
        while i < self.entries.len()
            invariant
                i <= self.entries@.len(),
                self@.entries.len() == self.entries@.len(),
                index_from(self@.entries, key@, 0) == index_from(self@.entries, key@, i as int),
            decreases self.entries@.len() - i,
        {
            assert(self@.entries[i as int].0 == self.entries@[i as int].key@);
            if same_text(self.entries[i].key.as_str(), key) {
                return Some(i);
            }
            i += 1;
        }
        None
    }

    /// The answer cached under the fingerprint, if there is one. Reading
    /// changes nothing.
    pub fn get(&self, key: &str) -> (answer: Option<String>)
        ensures
            match answer {
                Some(text) => lookup(self@.entries, key@) == Some(text@),
                None => lookup(self@.entries, key@) is None,
            },
    {
        match self.find(key) {
            Some(i) => {
                assert(self@.entries[i as int].1 == self.entries@[i as int].value@);
                Some(self.entries[i].value.clone())
            },
            None => None,
        }
    }

    /// Writes an answer under a fingerprint.
    pub fn insert(&mut self, key: String, value: String)
        ensures
            final(self)@ == after_insert(old(self)@, key@, value@),
            well_formed(final(self)@),
    {
        proof {
            use_type_invariant(&*self);
            lemma_insert_well_formed(self@, key@, value@);
        }
        if self.capacity == 0 {
            return ;
        }
        let ghost before = self@.entries;
        let found = self.find(key.as_str());
        let mut entries: Vec<CacheEntry> = Vec::new();
        core::mem::swap(&mut self.entries, &mut entries);
        let ghost held = Seq::new(entries@.len(), |i: int| (entries@[i].key@, entries@[i].value@));
        assert(held =~= before);
        match found {
            Some(i) => {
                entries.remove(i);
            },
            None => {
                if entries.len() >= self.capacity {
                    entries.remove(0);
                }
            },
        }
        entries.push(CacheEntry { key, value });
        let ghost written = Seq::new(
            entries@.len(),
            |i: int| (entries@[i].key@, entries@[i].value@),
        );
        assert(written =~= after_insert(old(self)@, key@, value@).entries);
        core::mem::swap(&mut self.entries, &mut entries);
        assert(self@.entries =~= written);
    }

    /// Writes stored exchanges into the cache, in the order given.
    pub fn load(&mut self, rows: &Vec<AIRequest>)
        ensures
            final(self)@ == after_inserts(old(self)@, exchanges(rows@), rows@.len() as int),
            well_formed(final(self)@),
    {
        let ghost start = self@;
        let ghost all = exchanges(rows@);
        let mut i: usize = 0;
        while i < rows.len()
            invariant
                i <= rows@.len(),
                all == exchanges(rows@),
                self@ == after_inserts(start, all, i as int),
            decreases rows@.len() - i,
        {
            assert(all[i as int] == (rows@[i as int].messages@, rows@[i as int].response@));
            self.insert(rows[i].messages.clone(), rows[i].response.clone());
            i += 1;
        }
        proof {
            use_type_invariant(&*self);
        }
    }
}

} // verus!
