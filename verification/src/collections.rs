//! A cache that keeps the entries used most recently, and lets entries
//! expire after a time.
use vstd::prelude::*;
use std::time::Instant;
use crate::clock::millis_since;
use crate::lookup::{
    lemma_position_found, lemma_position_meaning, lemma_position_missing, lemma_push_keeps_distinct,
    lemma_remove_keeps_distinct, position,
};
use crate::text::str_eq;

verus! {

/// One entry of a cache.  Times are milliseconds on the cache's clock.
pub struct CacheEntry {
    key: String,
    value: String,
    last_accessed: u128,
    expires_at: Option<u128>,
}

/// What a `CacheEntry` says.
pub struct EntryModel {
    pub key: Seq<char>,
    pub value: Seq<char>,
    pub last_accessed: u128,
    pub expires_at: Option<u128>,
}

impl View for CacheEntry {
    type V = EntryModel;

    closed spec fn view(&self) -> EntryModel {
        EntryModel {
            key: self.key@,
            value: self.value@,
            last_accessed: self.last_accessed,
            expires_at: self.expires_at,
        }
    }
}

/// What a cache holds: its capacity and its entries, the one used longest
/// ago first.
#[verifier::ext_equal]
pub struct CacheModel {
    pub capacity: usize,
    pub entries: Seq<EntryModel>,
}

/// The keys of a list of entries.
pub open spec fn entry_keys(entries: Seq<EntryModel>) -> Seq<Seq<char>> {
    entries.map_values(|entry: EntryModel| entry.key)
}

/// Whether an entry has expired at time `now`.
pub open spec fn expired(entry: EntryModel, now: u128) -> bool {
    entry.expires_at matches Some(deadline) && now >= deadline
}

/// The time at which an entry expires that is set at `now` to live for
/// `ttl` milliseconds: the end of time where the sum is beyond it.
pub open spec fn deadline(now: u128, ttl: u64) -> u128 {
    if now + ttl > u128::MAX {
        u128::MAX
    } else {
        (now + ttl) as u128
    }
}

/// The time at which an entry expires, if it is to expire at all.
pub open spec fn expiry(now: u128, ttl: Option<u64>) -> Option<u128> {
    match ttl {
        Some(ttl) => Some(deadline(now, ttl)),
        None => None,
    }
}

/// A list of entries without the entry of `key`, if it has one.
pub open spec fn without_key(entries: Seq<EntryModel>, key: Seq<char>) -> Seq<EntryModel> {
    match position(entry_keys(entries), key) {
        Some(at) => entries.remove(at),
        None => entries,
    }
}

/// What looking `key` up at time `now` does and gives.  An entry that has
/// expired is dropped and nothing is found.  An entry that is found counts
/// as used at `now` and moves to the end.
pub open spec fn cache_get(cache: CacheModel, key: Seq<char>, now: u128) -> (CacheModel, Option<Seq<char>>) {
    match position(entry_keys(cache.entries), key) {
        None => (cache, None),
        Some(at) => if expired(cache.entries[at], now) {
            (CacheModel { entries: cache.entries.remove(at), ..cache }, None)
        } else {
            (
                CacheModel {
                    entries: cache.entries.remove(at).push(
                        EntryModel { last_accessed: now, ..cache.entries[at] },
                    ),
                    ..cache
                },
                Some(cache.entries[at].value),
            )
        },
    }
}

/// What setting `key` to `value` at time `now` does.  Where the cache is
/// full and the key is new, the entry used longest ago leaves first.  The
/// new entry goes to the end, in place of the key's earlier entry.
pub open spec fn cache_insert(
    cache: CacheModel,
    key: Seq<char>,
    value: Seq<char>,
    ttl: Option<u64>,
    now: u128,
) -> CacheModel {
    let room = if cache.entries.len() >= cache.capacity && position(entry_keys(cache.entries), key) is None
        && cache.entries.len() > 0 {
        cache.entries.skip(1)
    } else {
        cache.entries
    };
    CacheModel {
        entries: without_key(room, key).push(
            EntryModel { key, value, last_accessed: now, expires_at: expiry(now, ttl) },
        ),
        ..cache
    }
}

/// What taking `key` out does and gives.
pub open spec fn cache_remove(cache: CacheModel, key: Seq<char>) -> (CacheModel, Option<Seq<char>>) {
    match position(entry_keys(cache.entries), key) {
        None => (cache, None),
        Some(at) => (
            CacheModel { entries: cache.entries.remove(at), ..cache },
            Some(cache.entries[at].value),
        ),
    }
}

/// The entries that have not expired at time `now`, in their order.
pub open spec fn unexpired(entries: Seq<EntryModel>, now: u128) -> Seq<EntryModel> {
    entries.filter(|entry: EntryModel| !expired(entry, now))
}

/// A cache is in order where no two entries have the same key and it holds
/// no more entries than its capacity, or one where its capacity is zero.
pub open spec fn in_order(cache: CacheModel) -> bool {
    &&& entry_keys(cache.entries).no_duplicates()
    &&& cache.entries.len() <= cache.capacity || cache.entries.len() <= 1
}

/// A cache of strings by key that keeps the entries used most recently.
pub struct LRUCache {
    capacity: usize,
    entries: Vec<CacheEntry>,
    created: Instant,
}

impl View for LRUCache {
    type V = CacheModel;

    closed spec fn view(&self) -> CacheModel {
        CacheModel { capacity: self.capacity, entries: self.entries@.map_values(|e: CacheEntry| e@) }
    }
}

/// The keys of a list without one entry are the keys without that one.
proof fn lemma_keys_of_remove(entries: Seq<EntryModel>, at: int)
    requires
        0 <= at < entries.len(),
    ensures
        entry_keys(entries.remove(at)) == entry_keys(entries).remove(at),
{
    assert(entry_keys(entries.remove(at)) =~= entry_keys(entries).remove(at));
}

/// The keys of a list with one more entry are the keys with one more.
proof fn lemma_keys_of_push(entries: Seq<EntryModel>, entry: EntryModel)
    ensures
        entry_keys(entries.push(entry)) == entry_keys(entries).push(entry.key),
{
    assert(entry_keys(entries.push(entry)) =~= entry_keys(entries).push(entry.key));
}

/// A list in which no key occurs twice stays one when an entry leaves and
/// when an entry of the same key then enters at the end.
proof fn lemma_move_to_end(entries: Seq<EntryModel>, at: int, entry: EntryModel)
    requires
        entry_keys(entries).no_duplicates(),
        0 <= at < entries.len(),
        entry.key == entries[at].key,
    ensures
        entry_keys(entries.remove(at)).no_duplicates(),
        position(entry_keys(entries.remove(at)), entry.key) is None,
        entry_keys(entries.remove(at).push(entry)).no_duplicates(),
{
    lemma_keys_of_remove(entries, at);
    lemma_remove_keeps_distinct(entry_keys(entries), at);
    lemma_position_missing(entry_keys(entries).remove(at), entry.key);
    lemma_keys_of_push(entries.remove(at), entry);
    lemma_push_keeps_distinct(entry_keys(entries.remove(at)), entry.key);
}

impl LRUCache {
    /// The cache is in order.
    pub open spec fn wf(&self) -> bool {
        in_order(self@)
    }

    /// An empty cache for `capacity` entries.  Its clock starts now.
    pub fn new(capacity: usize) -> (cache: LRUCache)
        ensures
            cache.wf(),
            cache@ == (CacheModel { capacity, entries: Seq::empty() }),
    {
        let cache = LRUCache { capacity, entries: Vec::new(), created: Instant::now() };
        assert(cache@.entries =~= Seq::empty());
        cache
    }

    /// The place of the entry of `key`.
    fn find(&self, key: &str) -> (found: Option<usize>)
        ensures
            match found {
                Some(at) => position(entry_keys(self@.entries), key@) == Some(at as int) && at
                    < self.entries.len(),
                None => position(entry_keys(self@.entries), key@) is None,
            },
            self@.entries.len() == self.entries.len(),
    {
        let ghost names = entry_keys(self@.entries);
        let mut i: usize = 0;
        while i < self.entries.len()
            invariant
                i <= self.entries.len(),
                names == entry_keys(self@.entries),
                names.len() == self.entries.len(),
                forall|j: int| 0 <= j < i ==> names[j] != key@,
            decreases self.entries.len() - i,
        {
            if str_eq(self.entries[i].key.as_str(), key) {
                proof {
                    assert(names[i as int] == key@);
                    lemma_position_found(names, key@, i as int);
                }
                return Some(i);
            }
            i = i + 1;
        }
        proof {
            lemma_position_missing(names, key@);
        }
        None
    }

    /// Looks `key` up at time `now` on the cache's clock.
    pub fn get_at(&mut self, key: String, now: u128) -> (value: Option<String>)
        requires
            old(self).wf(),
        ensures
            final(self).wf(),
            match cache_get(old(self)@, key@, now).1 {
                Some(text) => value matches Some(found) && found@ == text,
                None => value is None,
            },
            final(self)@ == cache_get(old(self)@, key@, now).0,
    {
        let at = match self.find(key.as_str()) {
            Some(at) => at,
            None => {
                return None;
            },
        };
        let ghost before = self@.entries;
        proof {
            lemma_position_meaning(entry_keys(before), key@);
        }
        let mut entry = self.entries.remove(at);
        assert(self@.entries =~= before.remove(at as int));
        proof {
            lemma_keys_of_remove(before, at as int);
            lemma_remove_keeps_distinct(entry_keys(before), at as int);
        }
        let gone = match entry.expires_at {
            Some(deadline) => now >= deadline,
            None => false,
        };
        if gone {
            return None;
        }
        entry.last_accessed = now;
        let value = entry.value.clone();
        proof {
            lemma_move_to_end(before, at as int, entry@);
        }
        self.entries.push(entry);
        assert(self@.entries =~= before.remove(at as int).push(entry@));
        Some(value)
    }

    /// Looks `key` up now.  The cache's clock is read once; whatever it
    /// says, the cache and the answer are those of `cache_get` for some
    /// time.
    pub fn get(&mut self, key: String) -> (value: Option<String>)
        requires
            old(self).wf(),
        ensures
            final(self).wf(),
            exists|now: u128|
                final(self)@ == (#[trigger] cache_get(old(self)@, key@, now)).0 && (match cache_get(
                    old(self)@,
                    key@,
                    now,
                ).1 {
                    Some(text) => value matches Some(found) && found@ == text,
                    None => value is None,
                }),
            position(entry_keys(old(self)@.entries), key@) is None ==> value is None && final(self)@
                == old(self)@,
    {
        let now = millis_since(&self.created);
        self.get_at(key, now)
    }

    /// Sets `key` to `value` at time `now` on the cache's clock, to expire
    /// `ttl` milliseconds later where a `ttl` is given.
    pub fn insert_at(&mut self, key: String, value: String, ttl: Option<u64>, now: u128)
        requires
            old(self).wf(),
        ensures
            final(self).wf(),
            final(self)@ == cache_insert(old(self)@, key@, value@, ttl, now),
    {
        let ghost start = self@.entries;
        let known = self.find(key.as_str());
        if self.entries.len() >= self.capacity && known.is_none() && self.entries.len() > 0 {
            proof {
                lemma_keys_of_remove(start, 0);
                lemma_remove_keeps_distinct(entry_keys(start), 0);
            }
            self.entries.remove(0);
            assert(self@.entries =~= start.skip(1));
            assert(start.remove(0) =~= start.skip(1));
        }
        let ghost room = self@.entries;
        match self.find(key.as_str()) {
            Some(at) => {
                proof {
                    lemma_keys_of_remove(room, at as int);
                    lemma_remove_keeps_distinct(entry_keys(room), at as int);
                    lemma_position_missing(entry_keys(room).remove(at as int), key@);
                }
                self.entries.remove(at);
                assert(self@.entries =~= room.remove(at as int));
            },
            None => {},
        }
        let ghost cleared = self@.entries;
        assert(cleared == without_key(room, key@));
        let expires_at = match ttl {
            Some(ttl) => {
                if ttl as u128 > u128::MAX - now {
                    Some(u128::MAX)
                } else {
                    Some(now + ttl as u128)
                }
            },
            None => None,
        };
        let entry = CacheEntry { key, value, last_accessed: now, expires_at };
        proof {
            lemma_keys_of_push(cleared, entry@);
            lemma_push_keeps_distinct(entry_keys(cleared), entry@.key);
        }
        self.entries.push(entry);
        assert(self@.entries =~= cleared.push(entry@));
    }

    /// Sets `key` to `value` now, to expire `ttl` milliseconds later where
    /// a `ttl` is given.  The cache's clock is read once; whatever it says,
    /// the cache is that of `cache_insert` for some time.
    pub fn insert(&mut self, key: String, value: String, ttl: Option<u64>)
        requires
            old(self).wf(),
        ensures
            final(self).wf(),
            exists|now: u128| final(self)@ == #[trigger] cache_insert(old(self)@, key@, value@, ttl, now),
            position(entry_keys(final(self)@.entries), key@) == Some(final(self)@.entries.len() - 1),
            final(self)@.entries.last().value == value@,
    {
        let now = millis_since(&self.created);
        self.insert_at(key, value, ttl, now);
        proof {
            let entries = self@.entries;
            let names = entry_keys(entries);
            assert(names[names.len() - 1] == key@);
            assert forall|j: int| 0 <= j < names.len() - 1 implies names[j] != key@ by {
                assert(names[j] != names[names.len() - 1]);
            }
            lemma_position_found(names, key@, names.len() - 1);
        }
    }

    /// Takes the entry of `key` out and gives its value, if it has one.
    pub fn remove(&mut self, key: String) -> (value: Option<String>)
        requires
            old(self).wf(),
        ensures
            final(self).wf(),
            match cache_remove(old(self)@, key@).1 {
                Some(text) => value matches Some(found) && found@ == text,
                None => value is None,
            },
            final(self)@ == cache_remove(old(self)@, key@).0,
    {
        match self.find(key.as_str()) {
            Some(at) => {
                let ghost before = self@.entries;
                proof {
                    lemma_keys_of_remove(before, at as int);
                    lemma_remove_keeps_distinct(entry_keys(before), at as int);
                }
                let entry = self.entries.remove(at);
                assert(self@.entries =~= before.remove(at as int));
                Some(entry.value)
            },
            None => None,
        }
    }

    /// Drops every entry that has expired at time `now` on the cache's
    /// clock.
    pub fn clear_expired_at(&mut self, now: u128)
        requires
            old(self).wf(),
        ensures
            final(self).wf(),
            final(self)@ == (CacheModel { entries: unexpired(old(self)@.entries, now), ..old(self)@ }),
    {
        let ghost start = self@.entries;
        let ghost keep = |entry: EntryModel| !expired(entry, now);
        let ghost mut seen: int = 0;
        let mut i: usize = 0;
        proof {
            reveal(Seq::filter);
            assert(start.take(0) =~= Seq::<EntryModel>::empty());
            assert(self@.entries.take(0) =~= Seq::<EntryModel>::empty());
            assert(self@.entries.skip(0) =~= start.skip(0));
        }
        while i < self.entries.len()
            invariant
                i <= self.entries.len(),
                self@.entries.len() == self.entries.len(),
                self@.capacity == old(self)@.capacity,
                entry_keys(self@.entries).no_duplicates(),
                self@.entries.len() <= start.len(),
                start == old(self)@.entries,
                keep == (|entry: EntryModel| !expired(entry, now)),
                0 <= seen <= start.len(),
                start.len() - seen == self.entries.len() - i,
                self@.entries.take(i as int) == start.take(seen).filter(keep),
                self@.entries.skip(i as int) == start.skip(seen),
            decreases self.entries.len() - i,
        {
            let ghost current = self@.entries;
            proof {
                reveal(Seq::filter);
                assert(current.skip(i as int)[0] == current[i as int]);
                assert(start.skip(seen)[0] == start[seen]);
                assert(start.take(seen + 1).drop_last() =~= start.take(seen));
                assert(start.take(seen + 1).last() == start[seen]);
            }
            let gone = match self.entries[i].expires_at {
                Some(deadline) => now >= deadline,
                None => false,
            };
            if gone {
                proof {
                    lemma_keys_of_remove(current, i as int);
                    lemma_remove_keeps_distinct(entry_keys(current), i as int);
                }
                self.entries.remove(i);
                proof {
                    assert(self@.entries =~= current.remove(i as int));
                    assert(self@.entries.take(i as int) =~= current.take(i as int));
                    assert(self@.entries.skip(i as int) =~= current.skip(i as int).skip(1));
                    assert(start.skip(seen).skip(1) =~= start.skip(seen + 1));
                    seen = seen + 1;
                }
            } else {
                proof {
                    assert(current.take(i as int + 1) =~= current.take(i as int).push(current[i as int]));
                    assert(current.skip(i as int).skip(1) =~= current.skip(i as int + 1));
                    assert(start.skip(seen).skip(1) =~= start.skip(seen + 1));
                    seen = seen + 1;
                }
                i = i + 1;
            }
        }
        proof {
            assert(self@.entries.take(i as int) =~= self@.entries);
            assert(start.take(seen) =~= start);
        }
    }

    /// Drops every entry that has expired by now.  The cache's clock is
    /// read once; whatever it says, the entries left are those that have
    /// not expired at some time.
    pub fn clear_expired(&mut self)
        requires
            old(self).wf(),
        ensures
            final(self).wf(),
            exists|now: u128|
                final(self)@ == (CacheModel {
                    entries: #[trigger] unexpired(old(self)@.entries, now),
                    ..old(self)@
                }),
    {
        let now = millis_since(&self.created);
        self.clear_expired_at(now);
    }

    /// The number of entries held, and the capacity.
    pub fn stats(&self) -> (stats: (usize, usize))
        ensures
            stats.0 == self@.entries.len(),
            stats.1 == self@.capacity,
    {
        (self.entries.len(), self.capacity)
    }
}

} // verus!
