//! A bounded cache of text by text, with least-recently-used eviction.
//!
//! The cache itself is `lru::LruCache`; what it holds is modelled as the
//! sequence of its entries in order of use, the most recently used first.
//! The calls into it are trusted, one small function each; [`TextCache`]
//! is the verified face that the rest of the library uses.

use lru::LruCache;
use vstd::prelude::*;

verus! {

/// The cache of the `lru` crate, opaque to the proofs.
#[verifier::external_type_specification]
#[verifier::external_body]
#[verifier::reject_recursive_types(K)]
#[verifier::reject_recursive_types(V)]
#[verifier::reject_recursive_types(S)]
pub struct ExLruCache<K, V, S>(LruCache<K, V, S>);

/// The hasher that an `lru::LruCache` uses by default, opaque to the proofs.
#[verifier::external_type_specification]
#[verifier::external_body]
pub struct ExLruHasher(lru::DefaultHasher);

/// What the cache holds: its entries, each a key and a value, from the most
/// recently used to the least recently used.
pub uninterp spec fn lru_entries(cache: LruCache<String, String>) -> Seq<(Seq<char>, Seq<char>)>;

/// The number of entries that the cache holds at most.
pub uninterp spec fn lru_limit(cache: LruCache<String, String>) -> nat;

/// Whether some entry has the key `key`.
pub open spec fn holds(entries: Seq<(Seq<char>, Seq<char>)>, key: Seq<char>) -> bool {
    exists|i: int| 0 <= i < entries.len() && (#[trigger] entries[i]).0 == key
}

/// The place of an entry with the key `key`, where there is one.
pub open spec fn slot(entries: Seq<(Seq<char>, Seq<char>)>, key: Seq<char>) -> int {
    choose|i: int| 0 <= i < entries.len() && (#[trigger] entries[i]).0 == key
}

/// Whether no key occurs in two entries.
pub open spec fn distinct_keys(entries: Seq<(Seq<char>, Seq<char>)>) -> bool {
    forall|i: int, j: int|
        0 <= i < j < entries.len() ==> (#[trigger] entries[i]).0 != (#[trigger] entries[j]).0
}

/// The value under `key`, where the entries hold the key.
pub open spec fn looked_up(entries: Seq<(Seq<char>, Seq<char>)>, key: Seq<char>) -> Option<
    Seq<char>,
> {
    if holds(entries, key) {
        Some(entries[slot(entries, key)].1)
    } else {
        None
    }
}

/// The entries after a use of `key`: the entry of the key has moved to the
/// front; without such an entry nothing has changed.
pub open spec fn touched(entries: Seq<(Seq<char>, Seq<char>)>, key: Seq<char>) -> Seq<
    (Seq<char>, Seq<char>),
> {
    if holds(entries, key) {
        seq![entries[slot(entries, key)]] + entries.remove(slot(entries, key))
    } else {
        entries
    }
}

/// The entries after `value` has been stored under `key` in a cache of at
/// most `limit` entries: the new entry stands at the front; it replaces the
/// entry of the same key where there was one, and else, in a full cache,
/// the last entry, the least recently used, has left.
pub open spec fn stored(
    entries: Seq<(Seq<char>, Seq<char>)>,
    limit: nat,
    key: Seq<char>,
    value: Seq<char>,
) -> Seq<(Seq<char>, Seq<char>)> {
    if holds(entries, key) {
        seq![(key, value)] + entries.remove(slot(entries, key))
    } else if entries.len() == limit {
        seq![(key, value)] + entries.drop_last()
    } else {
        seq![(key, value)] + entries
    }
}

/// The view of an optional text.
pub open spec fn text_view(text: Option<String>) -> Option<Seq<char>> {
    match text {
        Some(t) => Some(t@),
        None => None,
    }
}

/// Trusted: `LruCache::unbounded` makes an empty cache whose limit is the
/// greatest `usize`; it allocates nothing for entries to come.
#[verifier::external_body]
fn lru_unbounded() -> (cache: LruCache<String, String>)
    ensures
        lru_entries(cache) == Seq::<(Seq<char>, Seq<char>)>::empty(),
        lru_limit(cache) == usize::MAX,
{
    LruCache::unbounded()
}

/// Trusted: `LruCache::resize` sets the limit and, where the cache holds
/// more, discards the entries past the new limit, the least recently used.
#[verifier::external_body]
fn lru_resize(cache: &mut LruCache<String, String>, limit: usize)
    requires
        limit > 0,
    ensures
        lru_limit(*final(cache)) == limit,
        lru_entries(*final(cache)) == if lru_entries(*old(cache)).len() <= limit {
            lru_entries(*old(cache))
        } else {
            lru_entries(*old(cache)).take(limit as int)
        },
{
    cache.resize(std::num::NonZeroUsize::new(limit).unwrap())
}

/// Trusted: `LruCache::get` returns the value under the key, where the
/// cache holds the key, and moves that entry to the front. It does not
/// panic.
#[verifier::external_body]
fn lru_get(cache: &mut LruCache<String, String>, key: &str) -> (found: Option<String>)
    ensures
        text_view(found) == looked_up(lru_entries(*old(cache)), key@),
        lru_entries(*final(cache)) == touched(lru_entries(*old(cache)), key@),
        lru_limit(*final(cache)) == lru_limit(*old(cache)),
    no_unwind
{
    cache.get(key).cloned()
}

/// Trusted: `LruCache::peek` returns the value under the key, where the
/// cache holds the key, and leaves the order of use as it is.
#[verifier::external_body]
fn lru_peek(cache: &LruCache<String, String>, key: &str) -> (found: Option<String>)
    ensures
        text_view(found) == looked_up(lru_entries(*cache), key@),
{
    cache.peek(key).cloned()
}

/// Trusted: `LruCache::put` stores the value under the key at the front:
/// in place of the entry of the same key, or as a new entry, for which a
/// full cache gives up its last entry. It does not panic.
#[verifier::external_body]
fn lru_put(cache: &mut LruCache<String, String>, key: String, value: String)
    ensures
        lru_entries(*final(cache)) == stored(
            lru_entries(*old(cache)),
            lru_limit(*old(cache)),
            key@,
            value@,
        ),
        lru_limit(*final(cache)) == lru_limit(*old(cache)),
    no_unwind
{
    cache.put(key, value);
}

/// Trusted: `LruCache::len` is the number of entries.
#[verifier::external_body]
fn lru_len(cache: &LruCache<String, String>) -> (n: usize)
    ensures
        n == lru_entries(*cache).len(),
{
    cache.len()
}

/// Trusted: `LruCache::cap` is the limit that the cache was given.
#[verifier::external_body]
fn lru_cap(cache: &LruCache<String, String>) -> (n: usize)
    ensures
        n == lru_limit(*cache),
{
    cache.cap().get()
}

/// The number of entries of a cache for which `configured` was asked: 64
/// where nothing, that is zero, was asked.
pub open spec fn effective_limit(configured: usize) -> nat {
    if configured == 0 {
        64
    } else {
        configured as nat
    }
}

/// The number of entries of a cache for which `configured` was asked.
pub fn effective_size(configured: usize) -> (limit: usize)
    ensures
        limit == effective_limit(configured),
{
    if configured == 0 {
        64
    } else {
        configured
    }
}

/// A use of `key` keeps the keys apart and the number of entries.
pub proof fn touched_keeps_shape(entries: Seq<(Seq<char>, Seq<char>)>, key: Seq<char>)
    requires
        distinct_keys(entries),
    ensures
        distinct_keys(touched(entries, key)),
        touched(entries, key).len() == entries.len(),
        forall|k: Seq<char>| holds(touched(entries, key), k) == holds(entries, k),
        forall|k: Seq<char>| looked_up(touched(entries, key), k) == looked_up(entries, k),
{
    let after = touched(entries, key);
    if holds(entries, key) {
        let s = slot(entries, key);
        assert forall|i: int| 0 <= i < after.len() implies #[trigger] after[i] == entries[origin(
            s,
            i,
        )] by {}
        assert forall|i: int, j: int| 0 <= i < j < after.len() implies #[trigger] after[i].0
            != #[trigger] after[j].0 by {
            let a = origin(s, i);
            let b = origin(s, j);
            assert(a != b);
            if a < b {
                assert(entries[a].0 != entries[b].0);
            } else {
                assert(entries[b].0 != entries[a].0);
            }
        }
        assert forall|k: Seq<char>| holds(after, k) == holds(entries, k) by {
            if holds(after, k) {
                let i = slot(after, k);
                assert(entries[origin(s, i)].0 == k);
            }
            if holds(entries, k) {
                let i = slot(entries, k);
                assert(after[target(s, i)] == entries[i]);
            }
        }
        assert forall|k: Seq<char>| looked_up(after, k) == looked_up(entries, k) by {
            if holds(entries, k) {
                let i = slot(entries, k);
                let j = slot(after, k);
                assert(after[target(s, i)] == entries[i]);
                assert(entries[origin(s, j)].0 == k);
                unique_slot(entries, i, origin(s, j));
            }
        }
    }
}

/// Where the entry at place `i` after a move of the entry at `s` to the
/// front stood before.
pub open spec fn origin(s: int, i: int) -> int {
    if i == 0 {
        s
    } else if i <= s {
        i - 1
    } else {
        i
    }
}

/// Where the entry at place `i` stands after a move of the entry at `s` to
/// the front.
pub open spec fn target(s: int, i: int) -> int {
    if i == s {
        0
    } else if i < s {
        i + 1
    } else {
        i
    }
}

/// With the keys apart, two places of one key are one place.
pub proof fn unique_slot(entries: Seq<(Seq<char>, Seq<char>)>, i: int, j: int)
    requires
        distinct_keys(entries),
        0 <= i < entries.len(),
        0 <= j < entries.len(),
        entries[i].0 == entries[j].0,
    ensures
        i == j,
{
    if i < j {
        assert(entries[i].0 != entries[j].0);
    } else if j < i {
        assert(entries[j].0 != entries[i].0);
    }
}

/// Storing keeps the keys apart and the cache within its limit; afterwards
/// the key is held with the new value, and every other key is held as
/// before, but for the one that a full cache gave up.
pub proof fn stored_keeps_shape(
    entries: Seq<(Seq<char>, Seq<char>)>,
    limit: nat,
    key: Seq<char>,
    value: Seq<char>,
)
    requires
        distinct_keys(entries),
        entries.len() <= limit,
        limit > 0,
    ensures
        distinct_keys(stored(entries, limit, key, value)),
        stored(entries, limit, key, value).len() <= limit,
        stored(entries, limit, key, value).len() > 0,
        stored(entries, limit, key, value)[0] == (key, value),
        looked_up(stored(entries, limit, key, value), key) == Some(value),
        forall|i: int|
            1 <= i < stored(entries, limit, key, value).len() ==> entries.contains(
                #[trigger] stored(entries, limit, key, value)[i],
            ),
{
    let after = stored(entries, limit, key, value);
    if holds(entries, key) {
        let s = slot(entries, key);
        assert forall|i: int| 1 <= i < after.len() implies #[trigger] after[i] == entries[origin(
            s,
            i,
        )] by {}
        assert forall|i: int, j: int| 0 <= i < j < after.len() implies #[trigger] after[i].0
            != #[trigger] after[j].0 by {
            let b = origin(s, j);
            if i == 0 {
                if entries[b].0 == key {
                    unique_slot(entries, s, b);
                }
            } else {
                let a = origin(s, i);
                if entries[a].0 == entries[b].0 {
                    unique_slot(entries, a, b);
                }
            }
        }
        assert forall|i: int| 1 <= i < after.len() implies entries.contains(
            #[trigger] after[i],
        ) by {
            assert(after[i] == entries[origin(s, i)]);
        }
    } else {
        assert forall|i: int| 1 <= i < after.len() implies #[trigger] after[i] == entries[i - 1] by {}
        assert forall|i: int, j: int| 0 <= i < j < after.len() implies #[trigger] after[i].0
            != #[trigger] after[j].0 by {
            if i == 0 {
                assert(entries[j - 1].0 != key);
            } else {
                assert(entries[i - 1].0 != entries[j - 1].0);
            }
        }
        assert forall|i: int| 1 <= i < after.len() implies entries.contains(
            #[trigger] after[i],
        ) by {
            assert(after[i] == entries[i - 1]);
        }
    }
    assert(after[0].0 == key);
    assert(holds(after, key));
    unique_slot(after, 0, slot(after, key));
}

/// A bounded cache of text by text. It holds at most [`TextCache::limit`]
/// entries, no key twice; storing into a full cache evicts the entry that
/// was used least recently.
pub struct TextCache {
    inner: LruCache<String, String>,
}

impl TextCache {
    /// The entries, from the most recently used to the least recently used.
    pub closed spec fn entries(&self) -> Seq<(Seq<char>, Seq<char>)> {
        lru_entries(self.inner)
    }

    /// The number of entries that the cache holds at most.
    pub closed spec fn limit(&self) -> nat {
        lru_limit(self.inner)
    }

    /// No key twice, and no more entries than the limit, which is not zero.
    #[verifier::type_invariant]
    spec fn wf(self) -> bool {
        &&& distinct_keys(lru_entries(self.inner))
        &&& lru_entries(self.inner).len() <= lru_limit(self.inner)
        &&& 0 < lru_limit(self.inner) <= usize::MAX
    }

    /// Whether every entry holds, under its key, the value that `f` gives
    /// for the key.
    pub open spec fn memoizes(&self, f: spec_fn(Seq<char>) -> Seq<char>) -> bool {
        forall|i: int|
            0 <= i < self.entries().len() ==> (#[trigger] self.entries()[i]).1 == f(
                self.entries()[i].0,
            )
    }

    /// An empty cache for `configured` entries, or for 64 where `configured`
    /// is zero.
    pub fn new(configured: usize) -> (cache: TextCache)
        ensures
            cache.entries() == Seq::<(Seq<char>, Seq<char>)>::empty(),
            cache.limit() == effective_limit(configured),
    {
        let limit = effective_size(configured);
        let mut inner = lru_unbounded();
        lru_resize(&mut inner, limit);
        TextCache { inner }
    }

    /// The value under `key`, where the cache holds the key; the use moves
    /// that entry to the front.
    pub fn get(&mut self, key: &str) -> (found: Option<String>)
        ensures
            final(self).limit() == old(self).limit(),
            final(self).entries() == touched(old(self).entries(), key@),
            text_view(found) == looked_up(old(self).entries(), key@),
    {
        proof {
            use_type_invariant(&*self);
            touched_keeps_shape(self.entries(), key@);
        }
        lru_get(&mut self.inner, key)
    }

    /// The value under `key`, where the cache holds the key; the order of
    /// use stays as it is.
    pub fn peek(&self, key: &str) -> (found: Option<String>)
        ensures
            text_view(found) == looked_up(self.entries(), key@),
    {
        lru_peek(&self.inner, key)
    }

    /// Stores `value` under `key`, at the front. An entry of the same key is
    /// replaced; else a full cache evicts its last entry, the one used least
    /// recently.
    pub fn put(&mut self, key: String, value: String)
        ensures
            final(self).limit() == old(self).limit(),
            final(self).entries() == stored(old(self).entries(), old(self).limit(), key@, value@),
    {
        proof {
            use_type_invariant(&*self);
            stored_keeps_shape(self.entries(), self.limit(), key@, value@);
        }
        lru_put(&mut self.inner, key, value);
    }

    /// The number of entries. It never exceeds the limit.
    pub fn len(&self) -> (n: usize)
        ensures
            n == self.entries().len(),
            n <= self.limit(),
    {
        proof {
            use_type_invariant(self);
        }
        lru_len(&self.inner)
    }

    /// The number of entries that the cache holds at most.
    pub fn capacity(&self) -> (n: usize)
        ensures
            n == self.limit(),
            n > 0,
    {
        proof {
            use_type_invariant(self);
        }
        lru_cap(&self.inner)
    }
}

/// A use keeps what a cache memoizes.
pub proof fn touched_keeps_memo(
    entries: Seq<(Seq<char>, Seq<char>)>,
    key: Seq<char>,
    f: spec_fn(Seq<char>) -> Seq<char>,
)
    requires
        forall|i: int| 0 <= i < entries.len() ==> (#[trigger] entries[i]).1 == f(entries[i].0),
    ensures
        forall|i: int|
            0 <= i < touched(entries, key).len() ==> (#[trigger] touched(entries, key)[i]).1 == f(
                touched(entries, key)[i].0,
            ),
{
    let after = touched(entries, key);
    if holds(entries, key) {
        let s = slot(entries, key);
        assert forall|i: int| 0 <= i < after.len() implies (#[trigger] after[i]).1 == f(
            after[i].0,
        ) by {
            assert(after[i] == entries[origin(s, i)]);
        }
    }
}

/// Storing what `f` gives for the key keeps what a cache memoizes.
pub proof fn stored_keeps_memo(
    entries: Seq<(Seq<char>, Seq<char>)>,
    limit: nat,
    key: Seq<char>,
    f: spec_fn(Seq<char>) -> Seq<char>,
)
    requires
        limit > 0,
        forall|i: int| 0 <= i < entries.len() ==> (#[trigger] entries[i]).1 == f(entries[i].0),
    ensures
        forall|i: int|
            0 <= i < stored(entries, limit, key, f(key)).len() ==> (#[trigger] stored(
                entries,
                limit,
                key,
                f(key),
            )[i]).1 == f(stored(entries, limit, key, f(key))[i].0),
{
    let after = stored(entries, limit, key, f(key));
    assert forall|i: int| 0 <= i < after.len() implies (#[trigger] after[i]).1 == f(
        after[i].0,
    ) by {
        if i > 0 {
            if holds(entries, key) {
                assert(after[i] == entries[origin(slot(entries, key), i)]);
            } else {
                assert(after[i] == entries[i - 1]);
            }
        }
    }
}

/// What a lookup of `key` followed, on a miss, by the computation of
/// `value` gives: the value that the entries hold under the key, and
/// `value` where they hold none.
pub open spec fn recalled(
    entries: Seq<(Seq<char>, Seq<char>)>,
    key: Seq<char>,
    value: Seq<char>,
) -> Seq<char> {
    match looked_up(entries, key) {
        Some(held) => held,
        None => value,
    }
}

/// The entries after a lookup of `key` that, on a miss, is followed by
/// storing `value` under the key: on a hit the entry of the key has moved to
/// the front, and on a miss the new entry stands there.
pub open spec fn remembered(
    entries: Seq<(Seq<char>, Seq<char>)>,
    limit: nat,
    key: Seq<char>,
    value: Seq<char>,
) -> Seq<(Seq<char>, Seq<char>)> {
    if holds(entries, key) {
        touched(entries, key)
    } else {
        stored(entries, limit, key, value)
    }
}

/// A lookup that stores on a miss keeps the keys apart and the cache within
/// its limit.
pub proof fn remembered_keeps_shape(
    entries: Seq<(Seq<char>, Seq<char>)>,
    limit: nat,
    key: Seq<char>,
    value: Seq<char>,
)
    requires
        distinct_keys(entries),
        entries.len() <= limit,
        limit > 0,
    ensures
        distinct_keys(remembered(entries, limit, key, value)),
        remembered(entries, limit, key, value).len() <= limit,
{
    touched_keeps_shape(entries, key);
    stored_keeps_shape(entries, limit, key, value);
}

/// In a cache that memoizes `f`, a lookup that stores what `f` gives on a
/// miss returns what `f` gives for the key, and the cache memoizes `f`
/// afterwards.
pub proof fn remembered_keeps_memo(
    entries: Seq<(Seq<char>, Seq<char>)>,
    limit: nat,
    key: Seq<char>,
    f: spec_fn(Seq<char>) -> Seq<char>,
)
    requires
        limit > 0,
        forall|i: int| 0 <= i < entries.len() ==> (#[trigger] entries[i]).1 == f(entries[i].0),
    ensures
        recalled(entries, key, f(key)) == f(key),
        forall|i: int|
            0 <= i < remembered(entries, limit, key, f(key)).len() ==> (#[trigger] remembered(
                entries,
                limit,
                key,
                f(key),
            )[i]).1 == f(remembered(entries, limit, key, f(key))[i].0),
{
    touched_keeps_memo(entries, key, f);
    stored_keeps_memo(entries, limit, key, f);
}

/// The entries of a cache of at most `limit` entries that was empty and in
/// which the pairs of `pairs` have been stored, one after another.
pub open spec fn filled(limit: nat, pairs: Seq<(Seq<char>, Seq<char>)>) -> Seq<
    (Seq<char>, Seq<char>),
>
    decreases pairs.len(),
{
    if pairs.len() == 0 {
        Seq::empty()
    } else {
        stored(filled(limit, pairs.drop_last()), limit, pairs.last().0, pairs.last().1)
    }
}

/// The last `count` pairs of `pairs`, the last one first.
pub open spec fn latest(pairs: Seq<(Seq<char>, Seq<char>)>, count: nat) -> Seq<
    (Seq<char>, Seq<char>),
> {
    Seq::new(count, |i: int| pairs[pairs.len() - 1 - i])
}

/// A cache that was empty and has stored pairs of distinct keys holds the
/// latest of them, as many as its limit allows, the latest at the front.
pub proof fn filled_holds_latest(limit: nat, pairs: Seq<(Seq<char>, Seq<char>)>)
    requires
        limit > 0,
        distinct_keys(pairs),
    ensures
        pairs.len() <= limit ==> filled(limit, pairs) == latest(pairs, pairs.len()),
        pairs.len() > limit ==> filled(limit, pairs) == latest(pairs, limit),
    decreases pairs.len(),
{
    if pairs.len() > 0 {
        let before = pairs.drop_last();
        let kept: nat = if before.len() <= limit {
            before.len()
        } else {
            limit
        };
        filled_holds_latest(limit, before);
        let held = filled(limit, before);
        assert(held == latest(before, kept));
        let key = pairs.last().0;
        if holds(held, key) {
            let i = slot(held, key);
            assert(held[i] == before[before.len() - 1 - i]);
            assert(pairs[before.len() - 1 - i].0 != pairs[pairs.len() - 1].0);
        }
        let after = filled(limit, pairs);
        if pairs.len() <= limit {
            assert(after =~= latest(pairs, pairs.len()));
        } else {
            assert(after =~= latest(pairs, limit));
        }
    } else {
        assert(filled(limit, pairs) =~= latest(pairs, 0));
    }
}

/// Storing one pair more than the limit, all of distinct keys, in an empty
/// cache evicts the key that was used least recently, which is the first
/// one stored: before the last pair is stored that key stands last, and
/// afterwards the cache is full, does not hold it, and holds every other
/// key with its value.
pub proof fn overfull_cache_evicts_least_recent(limit: nat, pairs: Seq<(Seq<char>, Seq<char>)>)
    requires
        limit > 0,
        pairs.len() == limit + 1,
        distinct_keys(pairs),
    ensures
        filled(limit, pairs.drop_last()).len() == limit,
        filled(limit, pairs.drop_last()).last() == pairs[0],
        filled(limit, pairs).len() == limit,
        !holds(filled(limit, pairs), pairs[0].0),
        forall|i: int|
            1 <= i <= limit ==> looked_up(filled(limit, pairs), (#[trigger] pairs[i]).0) == Some(
                pairs[i].1,
            ),
{
    let before = pairs.drop_last();
    filled_holds_latest(limit, before);
    filled_holds_latest(limit, pairs);
    let after = filled(limit, pairs);
    assert(after == latest(pairs, limit));
    if holds(after, pairs[0].0) {
        let i = slot(after, pairs[0].0);
        assert(after[i] == pairs[pairs.len() - 1 - i]);
        assert(pairs[0].0 != pairs[pairs.len() - 1 - i].0);
    }
    assert forall|i: int| 1 <= i <= limit implies looked_up(after, (#[trigger] pairs[i]).0)
        == Some(pairs[i].1) by {
        let at = pairs.len() - 1 - i;
        assert(after[at] == pairs[i]);
        assert(holds(after, pairs[i].0));
        let found = slot(after, pairs[i].0);
        assert(after[found] == pairs[pairs.len() - 1 - found]);
        unique_slot(pairs, i, pairs.len() - 1 - found);
    }
}

} // verus!
