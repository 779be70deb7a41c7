//! The least-recently-used cache of translated values, kept in an `lru::LruCache`.
//!
//! The cache is described by the sequence of its entries, most recently used first,
//! and by the capacity it was made with.

use vstd::prelude::*;

verus! {

#[verifier::external_type_specification]
#[verifier::external_body]
#[verifier::reject_recursive_types(K)]
#[verifier::reject_recursive_types(V)]
#[verifier::reject_recursive_types(S)]
pub struct ExLruCache<K, V, S>(lru::LruCache<K, V, S>);

#[verifier::external_type_specification]
#[verifier::external_body]
pub struct ExLruDefaultHasher(lru::DefaultHasher);

/// The entries of an `lru::LruCache`, as (key, value) pairs, most recently used first.
pub uninterp spec fn lru_entries(cache: lru::LruCache<String, String>) -> Seq<(Seq<char>, Seq<char>)>;

/// The capacity that an `lru::LruCache` was made with.
pub uninterp spec fn lru_capacity(cache: lru::LruCache<String, String>) -> nat;

/// No key occurs twice among the entries.
pub open spec fn keys_unique(entries: Seq<(Seq<char>, Seq<char>)>) -> bool {
    forall|i: int, j: int| 0 <= i < j < entries.len() ==> #[trigger] entries[i].0 != #[trigger] entries[j].0
}

/// What every cache satisfies: distinct keys, at most `capacity` entries, a positive capacity.
pub open spec fn lru_shape(entries: Seq<(Seq<char>, Seq<char>)>, capacity: nat) -> bool {
    &&& keys_unique(entries)
    &&& entries.len() <= capacity
    &&& capacity > 0
}

/// Whether `key` is held by the entry at index `i`.
pub open spec fn holds_key_at(entries: Seq<(Seq<char>, Seq<char>)>, i: int, key: Seq<char>) -> bool {
    0 <= i < entries.len() && entries[i].0 == key
}

/// Whether some entry holds `key`.
pub open spec fn has_key(entries: Seq<(Seq<char>, Seq<char>)>, key: Seq<char>) -> bool {
    exists|i: int| holds_key_at(entries, i, key)
}

/// The index of the entry that holds `key` (meaningful where `has_key`).
pub open spec fn index_of_key(entries: Seq<(Seq<char>, Seq<char>)>, key: Seq<char>) -> int {
    choose|i: int| holds_key_at(entries, i, key)
}

/// The value cached for `key`, if any.
pub open spec fn lru_lookup(entries: Seq<(Seq<char>, Seq<char>)>, key: Seq<char>) -> Option<Seq<char>> {
    if has_key(entries, key) {
        Some(entries[index_of_key(entries, key)].1)
    } else {
        None
    }
}

/// The entries after a read of `key`: a hit moves its entry to the front, a miss changes nothing.
pub open spec fn lru_after_get(entries: Seq<(Seq<char>, Seq<char>)>, key: Seq<char>) -> Seq<(Seq<char>, Seq<char>)> {
    if has_key(entries, key) {
        let i = index_of_key(entries, key);
        seq![entries[i]] + entries.remove(i)
    } else {
        entries
    }
}

/// The entries after `key` is written with `value`: the pair goes to the front; an entry
/// that held `key` before is dropped; otherwise, where the cache is full, the least
/// recently used entry (the last one) is evicted.
pub open spec fn lru_after_put(
    entries: Seq<(Seq<char>, Seq<char>)>,
    capacity: nat,
    key: Seq<char>,
    value: Seq<char>,
) -> Seq<(Seq<char>, Seq<char>)> {
    if has_key(entries, key) {
        seq![(key, value)] + entries.remove(index_of_key(entries, key))
    } else if entries.len() == capacity {
        seq![(key, value)] + entries.drop_last()
    } else {
        seq![(key, value)] + entries
    }
}

/// Where keys are distinct, the entry that holds a key is the one found for it.
pub proof fn lemma_index_of_unique_key(entries: Seq<(Seq<char>, Seq<char>)>, key: Seq<char>, i: int)
    requires
        keys_unique(entries),
        holds_key_at(entries, i, key),
    ensures
        has_key(entries, key),
        index_of_key(entries, key) == i,
        lru_lookup(entries, key) == Some(entries[i].1),
{
    let j = index_of_key(entries, key);
    assert(holds_key_at(entries, j, key));
    if j < i {
        assert(entries[j].0 != entries[i].0);
    } else if i < j {
        assert(entries[i].0 != entries[j].0);
    }
}

/// The entries of `entries.remove(i)` are those of `entries` but the one at `i`.
proof fn lemma_remove_index(entries: Seq<(Seq<char>, Seq<char>)>, i: int, m: int)
    requires
        0 <= i < entries.len(),
        0 <= m < entries.len() - 1,
    ensures
        entries.remove(i)[m] == (if m < i { entries[m] } else { entries[m + 1] }),
{
}

/// The index in `entries` of the entry at index `m` (at least 1) after a write of `key`.
pub open spec fn put_source(entries: Seq<(Seq<char>, Seq<char>)>, capacity: nat, key: Seq<char>, m: int) -> int {
    if has_key(entries, key) && index_of_key(entries, key) <= m - 1 {
        m
    } else {
        m - 1
    }
}

/// The entries after a write of `key`: the new pair first, then entries of `entries`
/// (each at `put_source`), with distinct keys that differ from `key`.
proof fn lemma_put_rest(
    entries: Seq<(Seq<char>, Seq<char>)>,
    capacity: nat,
    key: Seq<char>,
    value: Seq<char>,
)
    requires
        lru_shape(entries, capacity),
    ensures
        ({
            let after = lru_after_put(entries, capacity, key, value);
            &&& after.len() >= 1
            &&& after[0] == (key, value)
            &&& forall|m: int| 1 <= m < after.len() ==> #[trigger] after[m].0 != key
            &&& forall|m: int|
                1 <= m < after.len() ==> {
                    let n = put_source(entries, capacity, key, m);
                    &&& 0 <= n < entries.len()
                    &&& #[trigger] after[m] == entries[n]
                    &&& (has_key(entries, key) ==> n != index_of_key(entries, key))
                }
            &&& keys_unique(after)
            &&& after.len() <= capacity
        }),
{
    let after = lru_after_put(entries, capacity, key, value);
    if has_key(entries, key) {
        let i = index_of_key(entries, key);
        let rest = entries.remove(i);
        assert(after == seq![(key, value)] + rest);
        assert forall|m: int| 1 <= m < after.len() implies #[trigger] after[m].0 != key by {
            lemma_remove_index(entries, i, m - 1);
            if m - 1 < i {
                assert(entries[m - 1].0 != entries[i].0);
            } else {
                assert(entries[i].0 != entries[m].0);
            }
        }
        assert forall|a: int, b: int| 0 <= a < b < after.len() implies #[trigger] after[a].0
            != #[trigger] after[b].0 by {
            if a > 0 {
                lemma_remove_index(entries, i, a - 1);
                lemma_remove_index(entries, i, b - 1);
                let na = if a - 1 < i { a - 1 } else { a };
                let nb = if b - 1 < i { b - 1 } else { b };
                assert(after[a] == entries[na]);
                assert(after[b] == entries[nb]);
                assert(na < nb);
                assert(entries[na].0 != entries[nb].0);
            }
        }
    } else if entries.len() == capacity {
        let rest = entries.drop_last();
        assert(after == seq![(key, value)] + rest);
        assert forall|m: int| 1 <= m < after.len() implies #[trigger] after[m].0 != key by {
            assert(after[m] == entries[m - 1]);
            assert(!holds_key_at(entries, m - 1, key));
        }
        assert forall|a: int, b: int| 0 <= a < b < after.len() implies #[trigger] after[a].0
            != #[trigger] after[b].0 by {
            if a > 0 {
                assert(after[a] == entries[a - 1]);
                assert(after[b] == entries[b - 1]);
            }
        }
    } else {
        assert(after == seq![(key, value)] + entries);
        assert forall|m: int| 1 <= m < after.len() implies #[trigger] after[m].0 != key by {
            assert(after[m] == entries[m - 1]);
            assert(!holds_key_at(entries, m - 1, key));
        }
        assert forall|a: int, b: int| 0 <= a < b < after.len() implies #[trigger] after[a].0
            != #[trigger] after[b].0 by {
            if a > 0 {
                assert(after[a] == entries[a - 1]);
                assert(after[b] == entries[b - 1]);
            }
        }
    }
}

/// A write keeps the cache well formed: distinct keys, within its capacity.
pub proof fn law_put_keeps_shape(
    entries: Seq<(Seq<char>, Seq<char>)>,
    capacity: nat,
    key: Seq<char>,
    value: Seq<char>,
)
    requires
        lru_shape(entries, capacity),
    ensures
        lru_shape(lru_after_put(entries, capacity, key, value), capacity),
{
    lemma_put_rest(entries, capacity, key, value);
}

/// A read gives back what the last write wrote: right after `value` is written under
/// `key`, the cache holds `value` for `key`.
pub proof fn law_read_after_write(
    entries: Seq<(Seq<char>, Seq<char>)>,
    capacity: nat,
    key: Seq<char>,
    value: Seq<char>,
)
    requires
        lru_shape(entries, capacity),
    ensures
        lru_lookup(lru_after_put(entries, capacity, key, value), key) == Some(value),
{
    lemma_put_rest(entries, capacity, key, value);
    lemma_index_of_unique_key(lru_after_put(entries, capacity, key, value), key, 0);
}

/// The entries after a read of `key` that hits: the entry read first, then the others
/// in their order.
proof fn lemma_get_hit(entries: Seq<(Seq<char>, Seq<char>)>, capacity: nat, key: Seq<char>)
    requires
        lru_shape(entries, capacity),
        has_key(entries, key),
    ensures
        ({
            let i = index_of_key(entries, key);
            let after = lru_after_get(entries, key);
            &&& after.len() == entries.len()
            &&& after[0] == entries[i]
            &&& forall|m: int|
                1 <= m < after.len() ==> #[trigger] after[m] == (if m - 1 < i {
                    entries[m - 1]
                } else {
                    entries[m]
                })
            &&& lru_shape(after, capacity)
        }),
{
    let i = index_of_key(entries, key);
    let after = lru_after_get(entries, key);
    assert(after == seq![entries[i]] + entries.remove(i));
    assert forall|m: int| 1 <= m < after.len() implies #[trigger] after[m] == (if m - 1 < i {
        entries[m - 1]
    } else {
        entries[m]
    }) by {
        lemma_remove_index(entries, i, m - 1);
    }
    assert forall|a: int, b: int| 0 <= a < b < after.len() implies #[trigger] after[a].0
        != #[trigger] after[b].0 by {
        let na = if a == 0 { i } else if a - 1 < i { a - 1 } else { a };
        let nb = if b - 1 < i { b - 1 } else { b };
        lemma_remove_index(entries, i, b - 1);
        if a > 0 {
            lemma_remove_index(entries, i, a - 1);
        }
        assert(after[a] == entries[na]);
        assert(after[b] == entries[nb]);
        assert(na != nb);
        if na < nb {
            assert(entries[na].0 != entries[nb].0);
        } else {
            assert(entries[nb].0 != entries[na].0);
        }
    }
}

/// A read changes no cached value: only the order of use. The cache stays well formed.
pub proof fn law_read_keeps_contents(
    entries: Seq<(Seq<char>, Seq<char>)>,
    capacity: nat,
    key: Seq<char>,
    other: Seq<char>,
)
    requires
        lru_shape(entries, capacity),
    ensures
        lru_shape(lru_after_get(entries, key), capacity),
        lru_lookup(lru_after_get(entries, key), other) == lru_lookup(entries, other),
{
    if has_key(entries, key) {
        lemma_get_hit(entries, capacity, key);
        let i = index_of_key(entries, key);
        let after = lru_after_get(entries, key);
        if has_key(entries, other) {
            let j = index_of_key(entries, other);
            let m = if j == i { 0 } else if j < i { j + 1 } else { j };
            assert(after[m] == entries[j]);
            lemma_index_of_unique_key(entries, other, j);
            lemma_index_of_unique_key(after, other, m);
        } else if has_key(after, other) {
            let m = index_of_key(after, other);
            let n = if m == 0 { i } else if m - 1 < i { m - 1 } else { m };
            assert(after[m] == entries[n]);
            assert(holds_key_at(entries, n, other));
        }
    }
}

/// A write of `key` changes the value of no other key, except that a new key written
/// into a full cache evicts the least recently used entry (the last one).
pub proof fn law_write_keeps_others(
    entries: Seq<(Seq<char>, Seq<char>)>,
    capacity: nat,
    key: Seq<char>,
    value: Seq<char>,
    other: Seq<char>,
)
    requires
        lru_shape(entries, capacity),
        other != key,
    ensures
        if !has_key(entries, key) && entries.len() == capacity && entries.last().0 == other {
            lru_lookup(lru_after_put(entries, capacity, key, value), other) is None
        } else {
            lru_lookup(lru_after_put(entries, capacity, key, value), other) == lru_lookup(entries, other)
        },
{
    lemma_put_rest(entries, capacity, key, value);
    let after = lru_after_put(entries, capacity, key, value);
    let evicting = !has_key(entries, key) && entries.len() == capacity;
    if has_key(entries, other) {
        let j = index_of_key(entries, other);
        lemma_index_of_unique_key(entries, other, j);
        if evicting && j == entries.len() - 1 {
            if has_key(after, other) {
                let m = index_of_key(after, other);
                let n = put_source(entries, capacity, key, m);
                assert(after[m] == entries[n]);
                assert(n < entries.len() - 1);
                assert(entries[n].0 != entries[j].0);
            }
        } else {
            let m = if has_key(entries, key) && index_of_key(entries, key) < j { j } else { j + 1 };
            assert(1 <= m < after.len());
            assert(put_source(entries, capacity, key, m) == j);
            assert(after[m] == entries[j]);
            lemma_index_of_unique_key(after, other, m);
        }
    } else if has_key(after, other) {
        let m = index_of_key(after, other);
        let n = put_source(entries, capacity, key, m);
        assert(after[m] == entries[n]);
        assert(holds_key_at(entries, n, other));
    }
}

/// A use of the cache: a read of a key, or a write of a value under a key.
pub enum CacheAccess {
    Read(Seq<char>),
    Write(Seq<char>, Seq<char>),
}

/// The key that an access uses.
pub open spec fn access_key(access: CacheAccess) -> Seq<char> {
    match access {
        CacheAccess::Read(key) => key,
        CacheAccess::Write(key, _) => key,
    }
}

/// The entries after one access.
pub open spec fn after_access(
    entries: Seq<(Seq<char>, Seq<char>)>,
    capacity: nat,
    access: CacheAccess,
) -> Seq<(Seq<char>, Seq<char>)> {
    match access {
        CacheAccess::Read(key) => lru_after_get(entries, key),
        CacheAccess::Write(key, value) => lru_after_put(entries, capacity, key, value),
    }
}

/// The entries after the accesses, in their order.
pub open spec fn after_accesses(
    entries: Seq<(Seq<char>, Seq<char>)>,
    capacity: nat,
    accesses: Seq<CacheAccess>,
) -> Seq<(Seq<char>, Seq<char>)>
    decreases accesses.len(),
{
    if accesses.len() == 0 {
        entries
    } else {
        after_accesses(after_access(entries, capacity, accesses[0]), capacity, accesses.drop_first())
    }
}

/// The keys of the entries.
pub open spec fn keys_of(entries: Seq<(Seq<char>, Seq<char>)>) -> Set<Seq<char>> {
    entries.map_values(|entry: (Seq<char>, Seq<char>)| entry.0).to_set()
}

/// The keys used more recently than `key`: those of the entries in front of it.
pub open spec fn keys_before(entries: Seq<(Seq<char>, Seq<char>)>, key: Seq<char>) -> Set<Seq<char>> {
    keys_of(entries.subrange(0, index_of_key(entries, key)))
}

/// The keys that the accesses use.
pub open spec fn accessed_keys(accesses: Seq<CacheAccess>) -> Set<Seq<char>> {
    accesses.map_values(|access: CacheAccess| access_key(access)).to_set()
}

/// A key of the first `n` entries is in `keys_of` of them.
proof fn lemma_key_in_prefix(entries: Seq<(Seq<char>, Seq<char>)>, n: int, m: int)
    requires
        0 <= m < n <= entries.len(),
    ensures
        keys_of(entries.subrange(0, n)).contains(entries[m].0),
{
    let ks = entries.subrange(0, n).map_values(|entry: (Seq<char>, Seq<char>)| entry.0);
    assert(ks[m] == entries[m].0);
}

/// Each key in front of `key` stands at some index in front of it.
proof fn lemma_prefix_key(entries: Seq<(Seq<char>, Seq<char>)>, n: int, x: Seq<char>) -> (m: int)
    requires
        0 <= n <= entries.len(),
        keys_of(entries.subrange(0, n)).contains(x),
    ensures
        0 <= m < n,
        entries[m].0 == x,
{
    let ks = entries.subrange(0, n).map_values(|entry: (Seq<char>, Seq<char>)| entry.0);
    let m = choose|m: int| 0 <= m < ks.len() && ks[m] == x;
    m
}

/// With distinct keys, the entries in front of `key` hold as many keys as there are of them.
proof fn lemma_keys_before_len(entries: Seq<(Seq<char>, Seq<char>)>, key: Seq<char>)
    requires
        keys_unique(entries),
        has_key(entries, key),
    ensures
        keys_before(entries, key).finite(),
        keys_before(entries, key).len() == index_of_key(entries, key),
{
    let p = index_of_key(entries, key);
    let ks = entries.subrange(0, p).map_values(|entry: (Seq<char>, Seq<char>)| entry.0);
    assert forall|a: int, b: int| 0 <= a < ks.len() && 0 <= b < ks.len() && a != b implies ks[a] != ks[b] by {
        if a < b {
            assert(entries[a].0 != entries[b].0);
        } else {
            assert(entries[b].0 != entries[a].0);
        }
    }
    assert(ks.no_duplicates());
    ks.unique_seq_to_set();
    vstd::seq_lib::seq_to_set_is_finite(ks);
}

/// One access of another key keeps the value of `key` (where it does not evict it) and
/// adds at most the accessed key to the keys in front of `key`.
proof fn lemma_access_step(
    entries: Seq<(Seq<char>, Seq<char>)>,
    capacity: nat,
    access: CacheAccess,
    key: Seq<char>,
    value: Seq<char>,
)
    requires
        lru_shape(entries, capacity),
        lru_lookup(entries, key) == Some(value),
        access_key(access) != key,
        !(access is Write && !has_key(entries, access_key(access)) && entries.len() == capacity
            && entries.last().0 == key),
    ensures
        lru_shape(after_access(entries, capacity, access), capacity),
        lru_lookup(after_access(entries, capacity, access), key) == Some(value),
        keys_before(after_access(entries, capacity, access), key).subset_of(
            keys_before(entries, key).insert(access_key(access)),
        ),
{
    let k2 = access_key(access);
    let after = after_access(entries, capacity, access);
    let p = index_of_key(entries, key);
    assert(holds_key_at(entries, p, key));
    // The index in `entries` of the entry at index `m >= 1` of `after`, where `i` is the
    // index that the accessed key had (or the length, where it had none).
    let i = if has_key(entries, k2) { index_of_key(entries, k2) } else { entries.len() as int };
    match access {
        CacheAccess::Read(k) => {
            law_read_keeps_contents(entries, capacity, k, key);
            if !has_key(entries, k) {
                return;
            }
            lemma_get_hit(entries, capacity, k);
        },
        CacheAccess::Write(k, v) => {
            law_put_keeps_shape(entries, capacity, k, v);
            law_write_keeps_others(entries, capacity, k, v, key);
            lemma_put_rest(entries, capacity, k, v);
        },
    }
    assert(has_key(after, key));
    let q = index_of_key(after, key);
    assert(holds_key_at(after, q, key));
    assert(after[0].0 == k2);
    assert(q >= 1);
    assert forall|m: int| 1 <= m < after.len() implies #[trigger] after[m] == entries[if m - 1 < i { m - 1 } else { m }] by {
        if access is Write {
            assert(after[m] == entries[put_source(entries, capacity, k2, m)]);
        }
    }
    let sq = if q - 1 < i { q - 1 } else { q };
    assert(after[q] == entries[sq]);
    lemma_index_of_unique_key(entries, key, sq);
    assert forall|x: Seq<char>| #[trigger] keys_before(after, key).contains(x) implies keys_before(
        entries,
        key,
    ).insert(k2).contains(x) by {
        let m = lemma_prefix_key(after, q, x);
        if m >= 1 {
            let sm = if m - 1 < i { m - 1 } else { m };
            assert(after[m] == entries[sm]);
            assert(sm < sq);
            lemma_key_in_prefix(entries, p, sm);
        }
    }
}

/// A key just written or just read (with a hit) is the most recently used one: no key is
/// in front of it.
pub proof fn law_used_key_is_most_recent(
    entries: Seq<(Seq<char>, Seq<char>)>,
    capacity: nat,
    key: Seq<char>,
    value: Seq<char>,
)
    requires
        lru_shape(entries, capacity),
    ensures
        keys_before(lru_after_put(entries, capacity, key, value), key) == Set::<Seq<char>>::empty(),
        has_key(entries, key) ==> keys_before(lru_after_get(entries, key), key) == Set::<Seq<char>>::empty(),
{
    lemma_put_rest(entries, capacity, key, value);
    lemma_index_of_unique_key(lru_after_put(entries, capacity, key, value), key, 0);
    assert(keys_before(lru_after_put(entries, capacity, key, value), key) =~= Set::<Seq<char>>::empty());
    if has_key(entries, key) {
        lemma_get_hit(entries, capacity, key);
        lemma_index_of_unique_key(lru_after_get(entries, key), key, 0);
        assert(keys_before(lru_after_get(entries, key), key) =~= Set::<Seq<char>>::empty());
    }
}

/// The most recently used values stay: a value at the front of the cache is still cached,
/// unchanged, after any accesses of other keys, as long as they use fewer distinct keys
/// than the capacity. More generally, a value stays as long as the keys in front of it
/// and the keys accessed number fewer than the capacity.
pub proof fn law_recent_values_stay(
    entries: Seq<(Seq<char>, Seq<char>)>,
    capacity: nat,
    key: Seq<char>,
    value: Seq<char>,
    accesses: Seq<CacheAccess>,
)
    requires
        lru_shape(entries, capacity),
        lru_lookup(entries, key) == Some(value),
        forall|i: int| 0 <= i < accesses.len() ==> access_key(#[trigger] accesses[i]) != key,
        keys_before(entries, key).union(accessed_keys(accesses)).len() < capacity,
    ensures
        lru_lookup(after_accesses(entries, capacity, accesses), key) == Some(value),
    decreases accesses.len(),
{
    if accesses.len() == 0 {
        return;
    }
    let access = accesses[0];
    let rest = accesses.drop_first();
    let k2 = access_key(access);
    let before = keys_before(entries, key);
    let used = accessed_keys(accesses);
    let ks = accesses.map_values(|a: CacheAccess| access_key(a));
    assert(ks[0] == k2);
    assert(used.contains(k2));
    lemma_keys_before_len(entries, key);
    vstd::seq_lib::seq_to_set_is_finite(ks);
    assert(before.union(used).finite());
    if access is Write && !has_key(entries, k2) && entries.len() == capacity && entries.last().0 == key {
        let p = index_of_key(entries, key);
        assert(holds_key_at(entries, entries.len() - 1, key));
        lemma_index_of_unique_key(entries, key, entries.len() - 1);
        assert(!before.contains(k2)) by {
            if before.contains(k2) {
                let m = lemma_prefix_key(entries, p, k2);
                assert(holds_key_at(entries, m, k2));
            }
        }
        assert(before.insert(k2).len() == capacity);
        vstd::set_lib::lemma_len_subset(before.insert(k2), before.union(used));
        assert(false);
    }
    lemma_access_step(entries, capacity, access, key, value);
    let after = after_access(entries, capacity, access);
    let rs = rest.map_values(|a: CacheAccess| access_key(a));
    assert forall|x: Seq<char>| #[trigger] keys_before(after, key).union(accessed_keys(rest)).contains(x)
        implies before.union(used).contains(x) by {
        if accessed_keys(rest).contains(x) {
            let j = choose|j: int| 0 <= j < rs.len() && rs[j] == x;
            assert(ks[j + 1] == x);
        }
    }
    lemma_keys_before_len(after, key);
    vstd::seq_lib::seq_to_set_is_finite(rs);
    vstd::set_lib::lemma_len_subset(keys_before(after, key).union(accessed_keys(rest)), before.union(used));
    assert forall|i: int| 0 <= i < rest.len() implies access_key(#[trigger] rest[i]) != key by {
        assert(rest[i] == accesses[i + 1]);
    }
    law_recent_values_stay(after, capacity, key, value, rest);
}

/// Wraps `lru::LruCache::new`: an empty cache that holds at most `capacity` entries.
#[verifier::external_body]
pub(crate) fn new_cache(capacity: usize) -> (cache: lru::LruCache<String, String>)
    requires
        capacity > 0,
    ensures
        lru_entries(cache) == Seq::<(Seq<char>, Seq<char>)>::empty(),
        lru_capacity(cache) == capacity,
{
    lru::LruCache::new(std::num::NonZeroUsize::new(capacity).unwrap())
}

/// Wraps `lru::LruCache::get` (the value cloned): the value cached for `key`, if any; a
/// hit makes the entry the most recently used one.
#[verifier::external_body]
pub(crate) fn cache_get(cache: &mut lru::LruCache<String, String>, key: &String) -> (value: Option<String>)
    ensures
        lru_entries(*final(cache)) == lru_after_get(lru_entries(*old(cache)), key@),
        lru_capacity(*final(cache)) == lru_capacity(*old(cache)),
        lru_shape(lru_entries(*final(cache)), lru_capacity(*final(cache))),
        match value {
            Some(v) => lru_lookup(lru_entries(*old(cache)), key@) == Some(v@),
            None => lru_lookup(lru_entries(*old(cache)), key@) is None,
        },
{
    cache.get(key).cloned()
}

/// Wraps `lru::LruCache::put` (its returned old value dropped): writes `value` under `key`
/// as the most recently used entry, evicting the least recently used one from a full
/// cache when `key` is new.
#[verifier::external_body]
pub(crate) fn cache_put(cache: &mut lru::LruCache<String, String>, key: String, value: String)
    ensures
        lru_entries(*final(cache)) == lru_after_put(
            lru_entries(*old(cache)),
            lru_capacity(*old(cache)),
            key@,
            value@,
        ),
        lru_capacity(*final(cache)) == lru_capacity(*old(cache)),
        lru_shape(lru_entries(*final(cache)), lru_capacity(*final(cache))),
{
    cache.put(key, value);
}

} // verus!
