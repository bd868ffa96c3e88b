//! The bounded cache that holds the searches, and what its operations do to
//! the order of its entries.

use vstd::prelude::*;
use lru::LruCache;
use std::num::NonZeroUsize;
use crate::state::Search;

verus! {

/// The cache of the `lru` crate: a map of bounded size that forgets the entry
/// used least recently.
#[verifier::external_type_specification]
#[verifier::external_body]
#[verifier::reject_recursive_types(K)]
#[verifier::reject_recursive_types(V)]
#[verifier::reject_recursive_types(S)]
pub struct ExLruCache<K, V, S>(LruCache<K, V, S>);

/// The hasher that `lru` gives a cache made with `LruCache::new`.
#[verifier::external_type_specification]
#[verifier::external_body]
pub struct ExDefaultHasher(lru::DefaultHasher);

/// What a cache holds: its entries, the one used most recently first.
pub uninterp spec fn cache_entries(cache: LruCache<usize, Search>) -> Seq<(usize, Search)>;

/// The number of entries that a cache was made to hold at most.
pub uninterp spec fn cache_limit(cache: LruCache<usize, Search>) -> nat;

/// Where the entry of `id` stands among `entries`; their length if there is
/// none.
pub open spec fn position(entries: Seq<(usize, Search)>, id: usize) -> int
    decreases entries.len(),
{
    if entries.len() == 0 {
        0
    } else if entries[0].0 == id {
        0
    } else {
        1 + position(entries.drop_first(), id)
    }
}

/// Whether `entries` has an entry of `id`.
pub open spec fn holds(entries: Seq<(usize, Search)>, id: usize) -> bool {
    position(entries, id) < entries.len()
}

/// The search stored under `id`.
pub open spec fn lookup(entries: Seq<(usize, Search)>, id: usize) -> Option<Search> {
    if holds(entries, id) {
        Some(entries[position(entries, id)].1)
    } else {
        None
    }
}

/// No identifier has two entries.
pub open spec fn distinct_ids(entries: Seq<(usize, Search)>) -> bool {
    forall|i: int, j: int|
        0 <= i < j < entries.len() ==> (#[trigger] entries[i]).0 != (#[trigger] entries[j]).0
}

/// The entries after `search` is stored under `id`. The new entry comes
/// first. It takes the place of an entry of the same identifier; if there is
/// none and the cache is full, the last entry leaves.
pub open spec fn put_spec(
    entries: Seq<(usize, Search)>,
    limit: nat,
    id: usize,
    search: Search,
) -> Seq<(usize, Search)> {
    let kept = if holds(entries, id) {
        entries.remove(position(entries, id))
    } else if entries.len() < limit {
        entries
    } else {
        entries.drop_last()
    };
    seq![(id, search)] + kept
}

/// The entries after the entry of `id` is used: it moves to the front. Without
/// such an entry nothing changes.
pub open spec fn touch_spec(entries: Seq<(usize, Search)>, id: usize) -> Seq<(usize, Search)> {
    if holds(entries, id) {
        seq![entries[position(entries, id)]] + entries.remove(position(entries, id))
    } else {
        entries
    }
}

/// The entries after the entry of `id` is taken out; the others keep their
/// order.
pub open spec fn remove_spec(entries: Seq<(usize, Search)>, id: usize) -> Seq<(usize, Search)> {
    if holds(entries, id) {
        entries.remove(position(entries, id))
    } else {
        entries
    }
}

/// The identifiers of `entries`, in their order.
pub open spec fn ids_of(entries: Seq<(usize, Search)>) -> Seq<usize> {
    Seq::new(entries.len(), |i: int| entries[i].0)
}

/// `LruCache::new`: an empty cache for at most `limit` entries.
#[verifier::external_body]
pub(crate) fn cache_new(limit: usize) -> (cache: LruCache<usize, Search>)
    requires
        limit > 0,
    ensures
        cache_entries(cache) == Seq::<(usize, Search)>::empty(),
        cache_limit(cache) == limit,
{
    LruCache::new(NonZeroUsize::new(limit).unwrap())
}

/// `LruCache::put`: stores the value under the key and makes that entry the
/// most recent one. An entry of the same key is replaced; otherwise, in a full
/// cache, the entry used least recently is dropped.
#[verifier::external_body]
pub(crate) fn cache_put(cache: &mut LruCache<usize, Search>, id: usize, search: Search)
    ensures
        cache_entries(*final(cache)) == put_spec(
            cache_entries(*old(cache)),
            cache_limit(*old(cache)),
            id,
            search,
        ),
        cache_limit(*final(cache)) == cache_limit(*old(cache)),
{
    cache.put(id, search);
}

/// `LruCache::get`: the value under the key, if there is one; its entry
/// becomes the most recent one.
#[verifier::external_body]
pub(crate) fn cache_get(cache: &mut LruCache<usize, Search>, id: usize) -> (found: Option<&Search>)
    ensures
        found == match lookup(cache_entries(*old(cache)), id) {
            Some(search) => Some(&search),
            None => None,
        },
        cache_entries(*final(cache)) == touch_spec(cache_entries(*old(cache)), id),
        cache_limit(*final(cache)) == cache_limit(*old(cache)),
{
    cache.get(&id)
}

/// `LruCache::pop`: takes the entry of the key out, if there is one.
#[verifier::external_body]
pub(crate) fn cache_pop(cache: &mut LruCache<usize, Search>, id: usize)
    ensures
        cache_entries(*final(cache)) == remove_spec(cache_entries(*old(cache)), id),
        cache_limit(*final(cache)) == cache_limit(*old(cache)),
{
    cache.pop(&id);
}

/// `LruCache::len`: the number of entries.
#[verifier::external_body]
pub(crate) fn cache_len(cache: &LruCache<usize, Search>) -> (len: usize)
    ensures
        len == cache_entries(*cache).len(),
{
    cache.len()
}

/// `LruCache::cap`: the limit that the cache was made with.
#[verifier::external_body]
pub(crate) fn cache_cap(cache: &LruCache<usize, Search>) -> (limit: usize)
    ensures
        limit == cache_limit(*cache),
{
    cache.cap().get()
}

/// `LruCache::iter`: the keys in the order of the entries, the most recent
/// first.
#[verifier::external_body]
pub(crate) fn cache_ids(cache: &LruCache<usize, Search>) -> (ids: Vec<usize>)
    ensures
        ids@ == ids_of(cache_entries(*cache)),
{
    cache.iter().map(|entry| *entry.0).collect()
}

/// Where `position` points: at the first entry of the identifier, or past the
/// end if there is none.
pub proof fn lemma_position(entries: Seq<(usize, Search)>, id: usize)
    ensures
        0 <= position(entries, id) <= entries.len(),
        holds(entries, id) ==> entries[position(entries, id)].0 == id,
        forall|i: int| 0 <= i < position(entries, id) ==> (#[trigger] entries[i]).0 != id,
    decreases entries.len(),
{
    if entries.len() > 0 && entries[0].0 != id {
        let rest = entries.drop_first();
        lemma_position(rest, id);
        assert forall|i: int| 0 <= i < position(entries, id) implies (#[trigger] entries[i]).0
            != id by {
            if i > 0 {
                assert(rest[i - 1] == entries[i]);
            }
        }
    }
}

/// Storing keeps the identifiers distinct and the size within the limit, puts
/// the new entry first, and adds no entry but that one.
pub proof fn lemma_put(entries: Seq<(usize, Search)>, limit: nat, id: usize, search: Search)
    requires
        distinct_ids(entries),
        entries.len() <= limit,
        limit > 0,
    ensures
        distinct_ids(put_spec(entries, limit, id, search)),
        put_spec(entries, limit, id, search).len() <= limit,
        put_spec(entries, limit, id, search).len() >= entries.len(),
        put_spec(entries, limit, id, search)[0] == (id, search),
        lookup(put_spec(entries, limit, id, search), id) == Some(search),
        forall|i: int|
            1 <= i < put_spec(entries, limit, id, search).len() ==> entries.contains(
                #[trigger] put_spec(entries, limit, id, search)[i],
            ),
{
    lemma_position(entries, id);
    let at = position(entries, id);
    let after = put_spec(entries, limit, id, search);
    if holds(entries, id) {
        let kept = entries.remove(at);
        assert forall|i: int| 1 <= i < after.len() implies entries.contains(
            #[trigger] after[i],
        ) by {
            if i - 1 < at {
                assert(after[i] == entries[i - 1]);
            } else {
                assert(after[i] == entries[i]);
            }
        }
        assert forall|i: int, j: int| 0 <= i < j < after.len() implies (#[trigger] after[i]).0 != (
        #[trigger] after[j]).0 by {
            let from_j = if j - 1 < at { j - 1 } else { j };
            assert(after[j] == entries[from_j]);
            if i == 0 {
                assert(entries[at].0 == id);
            } else {
                let from_i = if i - 1 < at { i - 1 } else { i };
                assert(after[i] == entries[from_i]);
            }
        }
    } else {
        assert forall|i: int| 1 <= i < after.len() implies entries.contains(
            #[trigger] after[i],
        ) by {
            assert(after[i] == entries[i - 1]);
        }
        assert forall|i: int, j: int| 0 <= i < j < after.len() implies (#[trigger] after[i]).0 != (
        #[trigger] after[j]).0 by {
            assert(after[j] == entries[j - 1]);
            if i > 0 {
                assert(after[i] == entries[i - 1]);
            }
        }
    }
    lemma_position(after, id);
}

/// Using an entry keeps the same entries, with the identifiers distinct, and
/// puts the used one first.
pub proof fn lemma_touch(entries: Seq<(usize, Search)>, id: usize)
    requires
        distinct_ids(entries),
    ensures
        distinct_ids(touch_spec(entries, id)),
        touch_spec(entries, id).len() == entries.len(),
        holds(entries, id) ==> touch_spec(entries, id)[0] == (id, lookup(entries, id)->0),
        lookup(touch_spec(entries, id), id) == lookup(entries, id),
        forall|i: int|
            0 <= i < entries.len() ==> entries.contains(#[trigger] touch_spec(entries, id)[i]),
{
    lemma_position(entries, id);
    let at = position(entries, id);
    let after = touch_spec(entries, id);
    if holds(entries, id) {
        assert forall|i: int| 0 <= i < after.len() implies entries.contains(
            #[trigger] after[i],
        ) by {
            if i == 0 {
                assert(after[i] == entries[at]);
            } else if i - 1 < at {
                assert(after[i] == entries[i - 1]);
            } else {
                assert(after[i] == entries[i]);
            }
        }
        assert forall|i: int, j: int| 0 <= i < j < after.len() implies (#[trigger] after[i]).0 != (
        #[trigger] after[j]).0 by {
            let from_j = if j - 1 < at { j - 1 } else { j };
            assert(after[j] == entries[from_j]);
            if i == 0 {
                assert(after[i] == entries[at]);
            } else {
                let from_i = if i - 1 < at { i - 1 } else { i };
                assert(after[i] == entries[from_i]);
            }
        }
        lemma_position(after, id);
    } else {
        assert forall|i: int| 0 <= i < after.len() implies entries.contains(
            #[trigger] after[i],
        ) by {
            assert(after[i] == entries[i]);
        }
    }
}

/// Taking an entry out leaves the other entries, with the identifiers
/// distinct, and none of that identifier.
pub proof fn lemma_remove(entries: Seq<(usize, Search)>, id: usize)
    requires
        distinct_ids(entries),
    ensures
        distinct_ids(remove_spec(entries, id)),
        remove_spec(entries, id).len() <= entries.len(),
        !holds(remove_spec(entries, id), id),
        forall|i: int|
            0 <= i < remove_spec(entries, id).len() ==> entries.contains(
                #[trigger] remove_spec(entries, id)[i],
            ),
{
    lemma_position(entries, id);
    let at = position(entries, id);
    let after = remove_spec(entries, id);
    assert forall|i: int| 0 <= i < after.len() implies entries.contains(#[trigger] after[i])
        && after[i].0 != id by {
        if holds(entries, id) {
            if i < at {
                assert(after[i] == entries[i]);
            } else {
                assert(after[i] == entries[i + 1]);
                assert(entries[at].0 == id);
            }
        } else {
            assert(after[i] == entries[i]);
        }
    }
    assert forall|i: int, j: int| 0 <= i < j < after.len() implies (#[trigger] after[i]).0 != (
    #[trigger] after[j]).0 by {
        if holds(entries, id) {
            let from_i = if i < at { i } else { i + 1 };
            let from_j = if j < at { j } else { j + 1 };
            assert(after[i] == entries[from_i]);
            assert(after[j] == entries[from_j]);
        }
    }
    lemma_position(after, id);
}

/// The entries after each of `items` has been stored in turn, the first of
/// them first.
pub open spec fn put_all(
    entries: Seq<(usize, Search)>,
    limit: nat,
    items: Seq<(usize, Search)>,
) -> Seq<(usize, Search)>
    decreases items.len(),
{
    if items.len() == 0 {
        entries
    } else {
        put_spec(put_all(entries, limit, items.drop_last()), limit, items.last().0, items.last().1)
    }
}

/// After items of distinct identifiers have been stored in turn, the entries
/// begin with the latest of them, the last stored first, as far as the limit
/// allows.
proof fn lemma_put_all_front(
    entries: Seq<(usize, Search)>,
    limit: nat,
    items: Seq<(usize, Search)>,
)
    requires
        distinct_ids(entries),
        entries.len() <= limit,
        limit > 0,
        distinct_ids(items),
    ensures
        distinct_ids(put_all(entries, limit, items)),
        put_all(entries, limit, items).len() <= limit,
        items.len() <= limit ==> put_all(entries, limit, items).len() >= items.len(),
        items.len() >= limit ==> put_all(entries, limit, items).len() == limit,
        forall|k: int|
            0 <= k < items.len() && k < limit ==> #[trigger] put_all(entries, limit, items)[k]
                == items[items.len() - 1 - k],
    decreases items.len(),
{
    if items.len() > 0 {
        let n = items.len() as int;
        let earlier = items.drop_last();
        let before = put_all(entries, limit, earlier);
        let id = items.last().0;
        let after = put_all(entries, limit, items);
        lemma_put_all_front(entries, limit, earlier);
        lemma_put(before, limit, id, items.last().1);
        lemma_position(before, id);
        let at = position(before, id);
        assert forall|j: int| 0 <= j < n - 1 && j < limit implies (#[trigger] before[j]).0
            != id by {
            assert(before[j] == earlier[n - 2 - j]);
            assert(earlier[n - 2 - j] == items[n - 2 - j]);
        }
        assert forall|k: int| 0 <= k < n && k < limit implies #[trigger] after[k] == items[n - 1
            - k] by {
            if k > 0 {
                assert(before[k - 1] == earlier[n - 1 - k]);
                assert(earlier[n - 1 - k] == items[n - 1 - k]);
            }
        }
    }
}

/// Once as many items of distinct identifiers as the limit, or more, have
/// been stored in turn, the store holds exactly the latest of them, as many
/// as the limit, the last stored first.
pub proof fn lemma_fill(entries: Seq<(usize, Search)>, limit: nat, items: Seq<(usize, Search)>)
    requires
        distinct_ids(entries),
        entries.len() <= limit,
        limit > 0,
        distinct_ids(items),
        items.len() >= limit,
    ensures
        put_all(entries, limit, items) == items.subrange(
            items.len() - limit,
            items.len() as int,
        ).reverse(),
{
    lemma_put_all_front(entries, limit, items);
    let after = put_all(entries, limit, items);
    let latest = items.subrange(items.len() - limit, items.len() as int).reverse();
    assert(after =~= latest);
}

/// A search that was taken out of the store is not found there.
pub proof fn lemma_removed_is_not_found(entries: Seq<(usize, Search)>, id: usize)
    requires
        distinct_ids(entries),
    ensures
        lookup(remove_spec(entries, id), id) is None,
        touch_spec(remove_spec(entries, id), id) == remove_spec(entries, id),
{
    lemma_remove(entries, id);
}

} // verus!
