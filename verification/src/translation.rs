//! Translation lookups: a least-recently-used cache in front of a store.
//!
//! A value is cached under `locale:key`. A read that misses the cache goes to the
//! store; a value found there is cached, and a value missing there (or a locale
//! missing there) is an issue (`IssueEvent::MissingTranslation`): `answer` reports it
//! to an `IssueCollector` and answers `None`.

use vstd::prelude::*;

use crate::cache::{
    accessed_keys, after_accesses, cache_get, cache_put, has_key, keys_before,
    law_read_after_write, law_read_keeps_contents, law_recent_values_stay, law_write_keeps_others,
    lru_after_get, lru_after_put, lru_capacity, lru_entries, lru_lookup, lru_shape, new_cache,
    access_key, CacheAccess,
};
use crate::internals::clock::is_rfc3339_utc;
use crate::internals::issue::{after_report, countable, EventModel, IssueCollector, IssueEvent};
use crate::store::{KVStore, StoreError, ValueState};
use crate::text::lemma_split_at_separator;

verus! {

/// The cache key of a value: `locale:key`.
pub open spec fn cache_key_text(locale: Seq<char>, key: Seq<char>) -> Seq<char> {
    locale + seq![':'] + key
}

/// The key that `Translation::get` looks up: `namespace.key`.
pub open spec fn namespaced_key_text(namespace: Seq<char>, key: Seq<char>) -> Seq<char> {
    namespace + seq!['.'] + key
}

/// A cache key holds its locale and its whole key: the locale, then `:`, then the key,
/// so its length is theirs and one more.
pub proof fn law_cache_key_parts(locale: Seq<char>, key: Seq<char>)
    ensures
        cache_key_text(locale, key).len() == locale.len() + key.len() + 1,
        cache_key_text(locale, key).subrange(0, locale.len() as int) == locale,
        cache_key_text(locale, key)[locale.len() as int] == ':',
        cache_key_text(locale, key).subrange(
            (locale.len() + 1) as int,
            cache_key_text(locale, key).len() as int,
        ) == key,
{
    let t = cache_key_text(locale, key);
    assert(t.subrange(0, locale.len() as int) =~= locale);
    assert(t.subrange((locale.len() + 1) as int, t.len() as int) =~= key);
}

/// Lookups of two different (locale, key) pairs never share a cache entry, where neither
/// locale holds `:`: in particular one key looked up in two locales is cached twice.
pub proof fn law_cache_keys_distinct(l1: Seq<char>, k1: Seq<char>, l2: Seq<char>, k2: Seq<char>)
    requires
        !l1.contains(':'),
        !l2.contains(':'),
        l1 != l2 || k1 != k2,
    ensures
        cache_key_text(l1, k1) != cache_key_text(l2, k2),
{
    if cache_key_text(l1, k1) == cache_key_text(l2, k2) {
        lemma_split_at_separator(l1, k1, l2, k2, ':');
    }
}

/// A namespaced key holds its namespace and its whole key: the namespace, then `.`, then
/// the key.
pub proof fn law_namespaced_key_parts(namespace: Seq<char>, key: Seq<char>)
    ensures
        namespaced_key_text(namespace, key).len() == namespace.len() + key.len() + 1,
        namespaced_key_text(namespace, key).subrange(0, namespace.len() as int) == namespace,
        namespaced_key_text(namespace, key)[namespace.len() as int] == '.',
        namespaced_key_text(namespace, key).subrange(
            (namespace.len() + 1) as int,
            namespaced_key_text(namespace, key).len() as int,
        ) == key,
{
    let t = namespaced_key_text(namespace, key);
    assert(t.subrange(0, namespace.len() as int) =~= namespace);
    assert(t.subrange((namespace.len() + 1) as int, t.len() as int) =~= key);
}

/// What a lookup found.
pub enum Lookup {
    /// The value.
    Found(String),
    /// No value: the issue to report.
    Missing(IssueEvent),
}

impl Lookup {
    /// The value, if one was found.
    pub fn value(self) -> (value: Option<String>)
        ensures
            match self {
                Lookup::Found(v) => value == Some(v),
                Lookup::Missing(_) => value is None,
            },
    {
        match self {
            Lookup::Found(v) => Some(v),
            Lookup::Missing(_) => None,
        }
    }
}

/// Translation lookups over a store, with a cache of recently read values.
pub struct Translation<Store: KVStore> {
    store: Store,
    cache: lru::LruCache<String, String>,
}

/// The cache key of (`locale`, `key`), built.
fn cache_key(locale: &str, key: &str) -> (text: String)
    ensures
        text@ == cache_key_text(locale@, key@),
{
    let mut text = String::from_str(locale);
    text.append(":");
    text.append(key);
    proof {
        reveal_strlit(":");
        assert(text@ =~= cache_key_text(locale@, key@));
    }
    text
}

/// What `set` answers for the store's answer `stored`: success, or the store's error.
pub open spec fn written(stored: Result<ValueState, StoreError>) -> Result<(), StoreError> {
    match stored {
        Ok(_) => Ok(()),
        Err(e) => Err(e),
    }
}

/// What `set` answers for the store's answer `stored`: see `written`.
pub fn write_result(stored: Result<ValueState, StoreError>) -> (result: Result<(), StoreError>)
    ensures
        result == written(stored),
{
    match stored {
        Ok(_) => Ok(()),
        Err(e) => Err(e),
    }
}

/// Whether `result` is what `get_key` owes for the answer `fetched` of the store, where
/// the cache had no entry: a value is handed back and cached; a missing value, or a
/// locale that the store does not have, is a missing translation; any other error is
/// handed back. The cache changes only when a value is found.
pub open spec fn settled(
    locale: Seq<char>,
    key: Seq<char>,
    fetched: Result<Option<String>, StoreError>,
    result: Result<Lookup, StoreError>,
    before: Seq<(Seq<char>, Seq<char>)>,
    after: Seq<(Seq<char>, Seq<char>)>,
    capacity: nat,
) -> bool {
    match fetched {
        Ok(Some(v)) => {
            &&& result matches Ok(Lookup::Found(found)) && found@ == v@
            &&& after == lru_after_put(before, capacity, cache_key_text(locale, key), v@)
        },
        Ok(None) | Err(StoreError::LocaleNotExist(_)) => {
            &&& result matches Ok(Lookup::Missing(e)) && e@ == (EventModel::MissingTranslation {
                locale,
                key,
            })
            &&& after == before
        },
        Err(e) => {
            &&& result == Err::<Lookup, StoreError>(e)
            &&& after == before
        },
    }
}

/// Whether `result` and the cache after the call are what `get_key(locale, key)` owes
/// over `store`: a cached value is handed back and becomes the most recently used one;
/// otherwise the store is read for (`locale`, `key`), and the outcome is `settled` for
/// an answer that the store gives to that read.
pub open spec fn looked_up<Store: KVStore>(
    store: Store,
    locale: Seq<char>,
    key: Seq<char>,
    result: Result<Lookup, StoreError>,
    before: Seq<(Seq<char>, Seq<char>)>,
    after: Seq<(Seq<char>, Seq<char>)>,
    capacity: nat,
) -> bool {
    match lru_lookup(before, cache_key_text(locale, key)) {
        Some(v) => {
            &&& result matches Ok(Lookup::Found(found)) && found@ == v
            &&& after == lru_after_get(before, cache_key_text(locale, key))
        },
        None => exists|fetched: Result<Option<String>, StoreError>|
            store.answers_get(locale, key, fetched) && settled(
                locale,
                key,
                fetched,
                result,
                before,
                after,
                capacity,
            ),
    }
}

/// A read gives back what a write wrote: right after `set(locale, key, value)`, whose
/// cache is then `lru_after_put` of the one before, `get_key(locale, key)` finds `value`
/// in the cache, whatever the store holds.
pub proof fn law_get_after_set<Store: KVStore>(
    store: Store,
    before: Seq<(Seq<char>, Seq<char>)>,
    capacity: nat,
    locale: Seq<char>,
    key: Seq<char>,
    value: Seq<char>,
    result: Result<Lookup, StoreError>,
    after: Seq<(Seq<char>, Seq<char>)>,
)
    requires
        lru_shape(before, capacity),
        looked_up(
            store,
            locale,
            key,
            result,
            lru_after_put(before, capacity, cache_key_text(locale, key), value),
            after,
            capacity,
        ),
    ensures
        result matches Ok(Lookup::Found(found)) && found@ == value,
{
    law_read_after_write(before, capacity, cache_key_text(locale, key), value);
}

/// A value that a lookup found in the store is cached: the next `get_key` of the same
/// locale and key finds it in the cache, without the store.
pub proof fn law_found_value_is_cached<Store: KVStore>(
    store: Store,
    before: Seq<(Seq<char>, Seq<char>)>,
    capacity: nat,
    locale: Seq<char>,
    key: Seq<char>,
    value: String,
    first: Result<Lookup, StoreError>,
    middle: Seq<(Seq<char>, Seq<char>)>,
    second: Result<Lookup, StoreError>,
    after: Seq<(Seq<char>, Seq<char>)>,
)
    requires
        lru_shape(before, capacity),
        settled(locale, key, Ok(Some(value)), first, before, middle, capacity),
        looked_up(store, locale, key, second, middle, after, capacity),
    ensures
        second matches Ok(Lookup::Found(found)) && found@ == value@,
        after == lru_after_get(middle, cache_key_text(locale, key)),
{
    law_read_after_write(before, capacity, cache_key_text(locale, key), value@);
}

/// A lookup changes the cached value of no other cache key; the one thing it can do to
/// another key is evict it, where it caches a value found in the store while the cache is
/// full and that key is the least recently used one.
pub proof fn law_lookup_keeps_other_values<Store: KVStore>(
    store: Store,
    before: Seq<(Seq<char>, Seq<char>)>,
    capacity: nat,
    locale: Seq<char>,
    key: Seq<char>,
    result: Result<Lookup, StoreError>,
    after: Seq<(Seq<char>, Seq<char>)>,
    other: Seq<char>,
)
    requires
        lru_shape(before, capacity),
        looked_up(store, locale, key, result, before, after, capacity),
        other != cache_key_text(locale, key),
    ensures
        lru_lookup(after, other) == lru_lookup(before, other) || (lru_lookup(after, other) is None
            && result is Ok && !has_key(before, cache_key_text(locale, key)) && before.len() == capacity
            && before.last().0 == other),
{
    let ck = cache_key_text(locale, key);
    law_read_keeps_contents(before, capacity, ck, other);
    if lru_lookup(before, ck) is None {
        let fetched = choose|fetched: Result<Option<String>, StoreError>|
            store.answers_get(locale, key, fetched) && settled(locale, key, fetched, result, before, after, capacity);
        match fetched {
            Ok(Some(v)) => {
                law_write_keeps_others(before, capacity, ck, v@, other);
            },
            _ => {},
        }
    }
}

/// A value found for one locale serves no other: where a lookup of (`l1`, `k1`) found
/// `value` in the store and cached it, a lookup of another pair (`l2`, `k2`), not cached
/// before, still misses the cache and reads the store, where neither locale holds `:`.
/// So one key looked up in two locales gives each locale's own value.
pub proof fn law_found_value_serves_its_locale_only<Store: KVStore>(
    store: Store,
    before: Seq<(Seq<char>, Seq<char>)>,
    capacity: nat,
    l1: Seq<char>,
    k1: Seq<char>,
    value: String,
    first: Result<Lookup, StoreError>,
    middle: Seq<(Seq<char>, Seq<char>)>,
    l2: Seq<char>,
    k2: Seq<char>,
    second: Result<Lookup, StoreError>,
    after: Seq<(Seq<char>, Seq<char>)>,
)
    requires
        lru_shape(before, capacity),
        !l1.contains(':'),
        !l2.contains(':'),
        l1 != l2 || k1 != k2,
        lru_lookup(before, cache_key_text(l2, k2)) is None,
        settled(l1, k1, Ok(Some(value)), first, before, middle, capacity),
        looked_up(store, l2, k2, second, middle, after, capacity),
    ensures
        lru_lookup(middle, cache_key_text(l2, k2)) is None,
        exists|fetched: Result<Option<String>, StoreError>|
            store.answers_get(l2, k2, fetched) && settled(l2, k2, fetched, second, middle, after, capacity),
{
    law_cache_keys_distinct(l2, k2, l1, k1);
    law_write_keeps_others(before, capacity, cache_key_text(l1, k1), value@, cache_key_text(l2, k2));
}

/// A cached value is served from the cache while it stays among the most recently used:
/// where the cache held `value` for (`locale`, `key`) and since then the cache was used
/// (by `get_key`, `get` and `set`, each of which reads or writes one cache key) for other
/// cache keys, which with the keys in front of it number fewer than the capacity, then
/// `get_key(locale, key)` finds `value` in the cache, without the store. Right after a
/// `set` or a found lookup of (`locale`, `key`), no key is in front of it
/// (`law_used_key_is_most_recent`), so up to capacity - 1 other keys may be used.
pub proof fn law_value_stays_cached<Store: KVStore>(
    store: Store,
    before: Seq<(Seq<char>, Seq<char>)>,
    capacity: nat,
    locale: Seq<char>,
    key: Seq<char>,
    value: Seq<char>,
    accesses: Seq<CacheAccess>,
    result: Result<Lookup, StoreError>,
    after: Seq<(Seq<char>, Seq<char>)>,
)
    requires
        lru_shape(before, capacity),
        lru_lookup(before, cache_key_text(locale, key)) == Some(value),
        forall|i: int| 0 <= i < accesses.len() ==> access_key(#[trigger] accesses[i]) != cache_key_text(locale, key),
        keys_before(before, cache_key_text(locale, key)).union(accessed_keys(accesses)).len() < capacity,
        looked_up(store, locale, key, result, after_accesses(before, capacity, accesses), after, capacity),
    ensures
        result matches Ok(Lookup::Found(found)) && found@ == value,
        after == lru_after_get(after_accesses(before, capacity, accesses), cache_key_text(locale, key)),
{
    law_recent_values_stay(before, capacity, cache_key_text(locale, key), value, accesses);
}

/// The answer that a caller gets for `lookup`, with a missing translation reported to
/// `issues`: a value found is the answer; a missing one is reported (see `after_report`)
/// and the answer is `None`; an error is handed back. The batch is not touched.
pub fn answer(lookup: Result<Lookup, StoreError>, issues: &mut IssueCollector) -> (answer: Result<Option<String>, StoreError>)
    requires
        old(issues).wf(),
        lookup matches Ok(Lookup::Missing(e)) ==> countable(old(issues).pending_model(), e@),
    ensures
        final(issues).wf(),
        final(issues).batch@ == old(issues).batch@,
        match lookup {
            Ok(Lookup::Found(v)) => answer == Ok::<Option<String>, StoreError>(Some(v))
                && final(issues).pending_model() == old(issues).pending_model(),
            Ok(Lookup::Missing(e)) => answer == Ok::<Option<String>, StoreError>(None) && exists|
                created_at: Seq<char>,
                seen_at: Seq<char>,
            |
                is_rfc3339_utc(created_at) && is_rfc3339_utc(seen_at) && final(issues).pending_model()
                    == after_report(
                    old(issues).pending_model(),
                    e@,
                    created_at,
                    seen_at,
                ),
            Err(e) => answer == Err::<Option<String>, StoreError>(e) && final(issues).pending_model()
                == old(issues).pending_model(),
        },
{
    match lookup {
        Ok(Lookup::Found(v)) => Ok(Some(v)),
        Ok(Lookup::Missing(e)) => {
            issues.report(e);
            Ok(None)
        },
        Err(e) => Err(e),
    }
}

impl<Store: KVStore> Translation<Store> {
    /// The cached (key, value) pairs, most recently used first.
    pub closed spec fn cached(&self) -> Seq<(Seq<char>, Seq<char>)> {
        lru_entries(self.cache)
    }

    /// How many values the cache holds at most.
    pub closed spec fn capacity(&self) -> nat {
        lru_capacity(self.cache)
    }

    /// The store behind the cache.
    pub closed spec fn store_view(&self) -> Store {
        self.store
    }

    /// The cache is well formed: distinct keys, within its capacity.
    pub open spec fn wf(&self) -> bool {
        lru_shape(self.cached(), self.capacity())
    }

    /// Lookups over `store` with a cache of `cache_capacity` values, empty at first.
    pub fn new(store: Store, cache_capacity: usize) -> (translation: Self)
        requires
            cache_capacity > 0,
        ensures
            translation.wf(),
            translation.cached() == Seq::<(Seq<char>, Seq<char>)>::empty(),
            translation.capacity() == cache_capacity,
            translation.store_view() == store,
    {
        Translation { store, cache: new_cache(cache_capacity) }
    }

    /// Finishes a lookup of (`locale`, `key`) that missed the cache, with what the store
    /// gave: see `settled`.
    pub fn settle(
        &mut self,
        locale: &str,
        key: &str,
        fetched: Result<Option<String>, StoreError>,
    ) -> (result: Result<Lookup, StoreError>)
        requires
            old(self).wf(),
        ensures
            final(self).wf(),
            final(self).capacity() == old(self).capacity(),
            final(self).store_view() == old(self).store_view(),
            settled(locale@, key@, fetched, result, old(self).cached(), final(self).cached(), old(self).capacity()),
    {
        match fetched {
            Ok(Some(value)) => {
                cache_put(&mut self.cache, cache_key(locale, key), value.clone());
                Ok(Lookup::Found(value))
            },
            Ok(None) | Err(StoreError::LocaleNotExist(_)) => Ok(
                Lookup::Missing(
                    IssueEvent::MissingTranslation {
                        locale: String::from_str(locale),
                        key: String::from_str(key),
                    },
                ),
            ),
            Err(e) => Err(e),
        }
    }

    /// Looks up the value of `key` in `locale`: from the cache where it is there, else
    /// from the store's read of (`locale`, `key`); see `looked_up`.
    pub fn get_key(&mut self, locale: &str, key: &str) -> (result: Result<Lookup, StoreError>)
        requires
            old(self).wf(),
        ensures
            final(self).wf(),
            final(self).capacity() == old(self).capacity(),
            final(self).store_view() == old(self).store_view(),
            looked_up(
                old(self).store_view(),
                locale@,
                key@,
                result,
                old(self).cached(),
                final(self).cached(),
                old(self).capacity(),
            ),
    {
        let ck = cache_key(locale, key);
        match cache_get(&mut self.cache, &ck) {
            Some(value) => Ok(Lookup::Found(value)),
            None => {
                let fetched = self.store.get(locale, key);
                let ghost f = fetched;
                let result = self.settle(locale, key, fetched);
                assert(old(self).store_view().answers_get(locale@, key@, f));
                assert(settled(locale@, key@, f, result, old(self).cached(), self.cached(), old(self).capacity()));
                result
            },
        }
    }

    /// Looks up `key` of `namespace` in `locale`: `get_key` with the key `namespace.key`.
    pub fn get(&mut self, locale: &str, namespace: &str, key: &str) -> (result: Result<Lookup, StoreError>)
        requires
            old(self).wf(),
        ensures
            final(self).wf(),
            final(self).capacity() == old(self).capacity(),
            final(self).store_view() == old(self).store_view(),
            looked_up(
                old(self).store_view(),
                locale@,
                namespaced_key_text(namespace@, key@),
                result,
                old(self).cached(),
                final(self).cached(),
                old(self).capacity(),
            ),
    {
        let mut full_key = String::from_str(namespace);
        full_key.append(".");
        full_key.append(key);
        proof {
            reveal_strlit(".");
            assert(full_key@ =~= namespaced_key_text(namespace@, key@));
        }
        self.get_key(locale, full_key.as_str())
    }

    /// Writes `value` under (`locale`, `key`): first into the cache, as the most recently
    /// used entry, then into the store. The store's error, if any, is handed back; the
    /// cache holds the value either way.
    pub fn set(&mut self, locale: &str, key: &str, value: &str) -> (result: Result<(), StoreError>)
        requires
            old(self).wf(),
        ensures
            final(self).wf(),
            final(self).capacity() == old(self).capacity(),
            final(self).cached() == lru_after_put(
                old(self).cached(),
                old(self).capacity(),
                cache_key_text(locale@, key@),
                value@,
            ),
            exists|stored: Result<ValueState, StoreError>|
                old(self).store_view().answers_set(final(self).store_view(), locale@, key@, value@, stored)
                    && result == written(stored),
    {
        cache_put(&mut self.cache, cache_key(locale, key), String::from_str(value));
        let ghost before = self.store;
        let stored = self.store.set(locale, key, value);
        let ghost s = stored;
        let result = write_result(stored);
        assert(before.answers_set(self.store, locale@, key@, value@, s) && result == written(s));
        result
    }
}

} // verus!
