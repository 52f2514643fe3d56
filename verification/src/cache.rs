//! The bounded cache of rendered documents, and the rules of its recency order.

use vstd::prelude::*;
use lru_cache::LruCache;
use std::hash::{BuildHasher, Hash};

verus! {

/// `lru_cache::LruCache`, taken as it is: what a cache holds is spoken of
/// through `cache_entries` and `cache_limit` only.
#[verifier::external_type_specification]
#[verifier::external_body]
#[verifier::reject_recursive_types(K)]
#[verifier::reject_recursive_types(V)]
#[verifier::reject_recursive_types(S)]
pub struct ExLruCache<K: Eq + Hash, V, S: BuildHasher>(LruCache<K, V, S>);

/// A cached pair: the query, and the document rendered for it.
pub type Entry = (Seq<char>, Seq<char>);

/// The pairs that the cache holds, from the least to the most recently used.
pub uninterp spec fn cache_entries(c: LruCache<String, String>) -> Seq<Entry>;

/// The number of pairs that the cache was made to hold.
pub uninterp spec fn cache_limit(c: LruCache<String, String>) -> nat;

pub open spec fn has_key(entries: Seq<Entry>, key: Seq<char>) -> bool {
    exists|i: int| 0 <= i < entries.len() && (#[trigger] entries[i]).0 == key
}

/// A place at which `key` stands; the only one where no key stands twice.
pub open spec fn key_index(entries: Seq<Entry>, key: Seq<char>) -> int {
    choose|i: int| 0 <= i < entries.len() && (#[trigger] entries[i]).0 == key
}

/// The document stored for `key`, if any.
pub open spec fn value_of(entries: Seq<Entry>, key: Seq<char>) -> Option<Seq<char>> {
    if has_key(entries, key) {
        Some(entries[key_index(entries, key)].1)
    } else {
        None
    }
}

/// The order after a read of `key`: its pair moves to the most recent end.
pub open spec fn touched(entries: Seq<Entry>, key: Seq<char>) -> Seq<Entry> {
    if has_key(entries, key) {
        let i = key_index(entries, key);
        entries.remove(i).push(entries[i])
    } else {
        entries
    }
}

/// The order after `key` is stored with `value` in a cache that holds at most
/// `limit` pairs: an earlier pair of `key` leaves, the new pair is the most
/// recent, and the least recent pair leaves if there is one too many.
pub open spec fn stored(entries: Seq<Entry>, limit: nat, key: Seq<char>, value: Seq<char>) -> Seq<
    Entry,
> {
    let rest = if has_key(entries, key) {
        entries.remove(key_index(entries, key))
    } else {
        entries
    };
    let all = rest.push((key, value));
    if all.len() > limit {
        all.drop_first()
    } else {
        all
    }
}

/// What holds of every cache: no key stands twice, and the limit is kept.
pub open spec fn well_formed(entries: Seq<Entry>, limit: nat) -> bool {
    &&& entries.len() <= limit
    &&& forall|i: int, j: int|
        0 <= i < j < entries.len() ==> (#[trigger] entries[i]).0 != (#[trigger] entries[j]).0
}

/// `LruCache::new`: an empty cache with the given limit.
#[verifier::external_body]
pub(crate) fn cache_new(capacity: usize) -> (c: LruCache<String, String>)
    ensures
        cache_entries(c) == Seq::<Entry>::empty(),
        cache_limit(c) == capacity,
{
    LruCache::new(capacity)
}

/// `LruCache::get_mut`, with the value found cloned: a hit returns the stored
/// document and makes its pair the most recent; a miss changes nothing.
#[verifier::external_body]
pub(crate) fn cache_lookup(c: &mut LruCache<String, String>, key: &String) -> (found: Option<String>)
    ensures
        cache_limit(*final(c)) == cache_limit(*old(c)),
        cache_entries(*final(c)) == touched(cache_entries(*old(c)), key@),
        found is Some == has_key(cache_entries(*old(c)), key@),
        found matches Some(v) ==> value_of(cache_entries(*old(c)), key@) == Some(v@),
{
    c.get_mut(key).cloned()
}

/// `LruCache::insert`: the pair becomes the most recent one, in place of an
/// earlier pair of the same key, and the least recent pair is dropped when the
/// cache would hold more than its limit.
#[verifier::external_body]
pub(crate) fn cache_store(c: &mut LruCache<String, String>, key: String, value: String)
    ensures
        cache_limit(*final(c)) == cache_limit(*old(c)),
        cache_entries(*final(c)) == stored(
            cache_entries(*old(c)),
            cache_limit(*old(c)),
            key@,
            value@,
        ),
{
    c.insert(key, value);
}

/// Where no key stands twice, the document found for a key is the one that
/// stands with it.
pub proof fn lemma_value_at(entries: Seq<Entry>, limit: nat, i: int)
    requires
        well_formed(entries, limit),
        0 <= i < entries.len(),
    ensures
        has_key(entries, entries[i].0),
        value_of(entries, entries[i].0) == Some(entries[i].1),
{
    let key = entries[i].0;
    let j = key_index(entries, key);
    assert(0 <= j < entries.len() && entries[j].0 == key);
    if j < i {
        assert(entries[j].0 != entries[i].0);
    }
    if i < j {
        assert(entries[i].0 != entries[j].0);
    }
}

/// A read keeps a cache well formed, keeps every stored document, and makes the
/// pair that was read the most recent one.
pub proof fn lemma_touched(entries: Seq<Entry>, limit: nat, key: Seq<char>)
    requires
        well_formed(entries, limit),
    ensures
        well_formed(touched(entries, key), limit),
        touched(entries, key).len() == entries.len(),
        has_key(entries, key) ==> touched(entries, key).last().0 == key && touched(
            entries,
            key,
        ).last().1 == value_of(entries, key).unwrap(),
        forall|k: Seq<char>| #[trigger]
            has_key(touched(entries, key), k) == has_key(entries, k),
{
    let after = touched(entries, key);
    if has_key(entries, key) {
        let i = key_index(entries, key);
        assert(0 <= i < entries.len() && entries[i].0 == key);
        assert forall|a: int, b: int| 0 <= a < b < after.len() implies (#[trigger] after[a]).0 != (
        #[trigger] after[b]).0 by {
            let sa = if a < i { a } else { a + 1 };
            assert(after[a] == entries[sa]);
            if b < after.len() - 1 {
                let sb = if b < i { b } else { b + 1 };
                assert(after[b] == entries[sb]);
                assert(entries[sa].0 != entries[sb].0);
            } else {
                assert(after[b] == entries[i]);
                if sa < i {
                    assert(entries[sa].0 != entries[i].0);
                } else {
                    assert(entries[i].0 != entries[sa].0);
                }
            }
        }
        assert forall|k: Seq<char>| #[trigger]
            has_key(after, k) == has_key(entries, k) by {
            if has_key(after, k) {
                let a = key_index(after, k);
                assert(0 <= a < after.len() && after[a].0 == k);
                let sa = if a == after.len() - 1 { i } else if a < i { a } else { a + 1 };
                assert(after[a] == entries[sa]);
                assert(entries[sa].0 == k);
            }
            if has_key(entries, k) {
                let s = key_index(entries, k);
                assert(0 <= s < entries.len() && entries[s].0 == k);
                let a = if s == i { after.len() - 1 } else if s < i { s } else { s - 1 };
                assert(after[a] == entries[s]);
                assert(after[a].0 == k);
            }
        }
    }
}

/// Storing a pair keeps a cache well formed.
pub proof fn lemma_stored(entries: Seq<Entry>, limit: nat, key: Seq<char>, value: Seq<char>)
    requires
        well_formed(entries, limit),
    ensures
        well_formed(stored(entries, limit, key, value), limit),
        limit > 0 ==> stored(entries, limit, key, value).last() == (key, value),
        limit == 0 ==> stored(entries, limit, key, value).len() == 0,
{
    let rest = if has_key(entries, key) {
        entries.remove(key_index(entries, key))
    } else {
        entries
    };
    let all = rest.push((key, value));
    let after = stored(entries, limit, key, value);
    if has_key(entries, key) {
        let i = key_index(entries, key);
        assert(0 <= i < entries.len() && entries[i].0 == key);
        assert forall|a: int| 0 <= a < rest.len() implies (#[trigger] rest[a]).0 != key by {
            let sa = if a < i { a } else { a + 1 };
            assert(rest[a] == entries[sa]);
            if sa < i {
                assert(entries[sa].0 != entries[i].0);
            } else {
                assert(entries[i].0 != entries[sa].0);
            }
        }
        assert forall|a: int, b: int| 0 <= a < b < rest.len() implies (#[trigger] rest[a]).0 != (
        #[trigger] rest[b]).0 by {
            let sa = if a < i { a } else { a + 1 };
            let sb = if b < i { b } else { b + 1 };
            assert(rest[a] == entries[sa]);
            assert(rest[b] == entries[sb]);
            assert(entries[sa].0 != entries[sb].0);
        }
    } else {
        assert forall|a: int| 0 <= a < rest.len() implies (#[trigger] rest[a]).0 != key by {
            if rest[a].0 == key {
                assert(has_key(entries, key));
            }
        }
    }
    assert forall|a: int, b: int| 0 <= a < b < all.len() implies (#[trigger] all[a]).0 != (
    #[trigger] all[b]).0 by {
        assert(all[a] == rest[a]);
        if b < rest.len() {
            assert(all[b] == rest[b]);
            assert(rest[a].0 != rest[b].0);
        } else {
            assert(rest[a].0 != key);
        }
    }
    if all.len() > limit {
        assert forall|a: int, b: int| 0 <= a < b < after.len() implies (#[trigger] after[a]).0 != (
        #[trigger] after[b]).0 by {
            assert(after[a] == all[a + 1]);
            assert(after[b] == all[b + 1]);
            assert(all[a + 1].0 != all[b + 1].0);
        }
    }
}

/// A full cache that takes a key it does not hold drops its least recently used
/// pair and no other: the pairs that follow keep their order, and the new pair
/// comes last.
pub proof fn lemma_store_evicts_least_recent(
    entries: Seq<Entry>,
    limit: nat,
    key: Seq<char>,
    value: Seq<char>,
)
    requires
        well_formed(entries, limit),
        entries.len() == limit,
        limit > 0,
        !has_key(entries, key),
    ensures
        stored(entries, limit, key, value) == entries.drop_first().push((key, value)),
        stored(entries, limit, key, value).len() == limit,
        value_of(stored(entries, limit, key, value), key) == Some(value),
        !has_key(stored(entries, limit, key, value), entries[0].0),
        forall|i: int|
            1 <= i < entries.len() ==> stored(entries, limit, key, value)[i - 1] == #[trigger] entries[i],
        forall|i: int|
            1 <= i < entries.len() ==> value_of(
                stored(entries, limit, key, value),
                (#[trigger] entries[i]).0,
            ) == Some(entries[i].1),
{
    let after = stored(entries, limit, key, value);
    assert(after =~= entries.drop_first().push((key, value)));
    lemma_stored(entries, limit, key, value);
    lemma_value_at(after, limit, after.len() - 1);
    assert forall|i: int| 1 <= i < entries.len() implies value_of(
        after,
        (#[trigger] entries[i]).0,
    ) == Some(entries[i].1) by {
        assert(after[i - 1] == entries[i]);
        lemma_value_at(after, limit, i - 1);
    }
    if has_key(after, entries[0].0) {
        let a = key_index(after, entries[0].0);
        assert(0 <= a < after.len() && after[a].0 == entries[0].0);
        if a < after.len() - 1 {
            assert(after[a] == entries[a + 1]);
            assert(entries[0].0 != entries[a + 1].0);
        } else {
            assert(has_key(entries, key));
        }
    }
}

/// A cache below its limit that takes a key it does not hold drops nothing.
pub proof fn lemma_store_keeps_below_limit(
    entries: Seq<Entry>,
    limit: nat,
    key: Seq<char>,
    value: Seq<char>,
)
    requires
        well_formed(entries, limit),
        entries.len() < limit,
        !has_key(entries, key),
    ensures
        stored(entries, limit, key, value) == entries.push((key, value)),
{
}

/// A read resets recency before the next eviction: in a full cache of two or
/// more pairs, after a read of a key that it holds, a new key drives out the
/// least recently used of the other pairs and nothing else; the key that was
/// read stays.
pub proof fn lemma_read_then_store(
    entries: Seq<Entry>,
    limit: nat,
    read: Seq<char>,
    key: Seq<char>,
    value: Seq<char>,
)
    requires
        well_formed(entries, limit),
        entries.len() == limit,
        limit >= 2,
        has_key(entries, read),
        !has_key(entries, key),
    ensures
        ({
            let after = stored(touched(entries, read), limit, key, value);
            let victim = if entries[0].0 == read {
                entries[1].0
            } else {
                entries[0].0
            };
            &&& has_key(after, read)
            &&& has_key(after, key)
            &&& !has_key(after, victim)
            &&& forall|k: Seq<char>| #[trigger]
                has_key(entries, k) && k != victim ==> has_key(after, k)
        }),
{
    let i = key_index(entries, read);
    assert(0 <= i < entries.len() && entries[i].0 == read);
    let mid = touched(entries, read);
    lemma_touched(entries, limit, read);
    assert(!has_key(mid, key));
    lemma_store_evicts_least_recent(mid, limit, key, value);
    let after = stored(mid, limit, key, value);
    let victim = if entries[0].0 == read {
        entries[1].0
    } else {
        entries[0].0
    };
    if i == 0 {
        assert(mid[0] == entries[1]);
    } else {
        assert(mid[0] == entries[0]);
        assert(entries[0].0 != entries[i].0);
    }
    assert(mid[0].0 == victim);
    assert(after[after.len() - 1] == (key, value));
    assert(after[after.len() - 2] == mid[mid.len() - 1]);
    assert forall|k: Seq<char>| #[trigger] has_key(entries, k) && k != victim implies has_key(
        after,
        k,
    ) by {
        assert(has_key(mid, k));
        let m = key_index(mid, k);
        assert(0 <= m < mid.len() && mid[m].0 == k);
        assert(m != 0);
        assert(after[m - 1] == mid[m]);
    }
}

} // verus!
