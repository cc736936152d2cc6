//! The two normalisers with their caches. Each cache stands behind a lock
//! of its own, held for one lookup and, on a miss, one insertion; the lock
//! admits only a cache that memoizes its function, so what a normaliser
//! returns never depends on what its cache holds.

use crate::boolean::{classified, classify};
use crate::cache::{
    distinct_keys, effective_limit, effective_size, filled, filled_holds_latest, holds, latest,
    looked_up, overfull_cache_evicts_least_recent, recalled, remembered, remembered_keeps_memo,
    remembered_keeps_shape, slot, TextCache,
};
use crate::normalize::{normalize, normalized};
use vstd::prelude::*;
use vstd::rwlock::{RwLock, RwLockPredicate};

verus! {

/// What the lock of a topic cache admits: a cache of the given limit in
/// which every entry holds the normalised form of its key.
pub struct TopicMemo {
    pub limit: nat,
}

impl RwLockPredicate<TextCache> for TopicMemo {
    open spec fn inv(self, cache: TextCache) -> bool {
        &&& cache.limit() == self.limit
        &&& cache.memoizes(|topic: Seq<char>| normalized(topic))
    }
}

/// What the lock of a value cache admits: a cache of the given limit in
/// which every entry holds the normalised form of its key.
pub struct ValueMemo {
    pub limit: nat,
}

impl RwLockPredicate<TextCache> for ValueMemo {
    open spec fn inv(self, cache: TextCache) -> bool {
        &&& cache.limit() == self.limit
        &&& cache.memoizes(|value: Seq<char>| classified(value))
    }
}

/// One step of topic normalisation on a cache: the normalised form of
/// `topic` is taken from the cache where it holds the topic, and that entry
/// moves to the front; else the form is computed and stored at the front,
/// for which a full cache gives up the entry that was used least recently.
pub fn normalize_with(cache: &mut TextCache, topic: &str) -> (flat: String)
    ensures
        final(cache).limit() == old(cache).limit(),
        flat@ == recalled(old(cache).entries(), topic@, normalized(topic@)),
        final(cache).entries() == remembered(
            old(cache).entries(),
            old(cache).limit(),
            topic@,
            normalized(topic@),
        ),
{
    match cache.get(topic) {
        Some(flat) => flat,
        None => {
            let flat = normalize(topic);
            cache.put(topic.to_owned(), flat.clone());
            flat
        },
    }
}

/// The entries after one step of value normalisation: as after a step of
/// topic normalisation, but that the empty value is not stored.
pub open spec fn value_remembered(
    entries: Seq<(Seq<char>, Seq<char>)>,
    limit: nat,
    value: Seq<char>,
) -> Seq<(Seq<char>, Seq<char>)> {
    if value.len() == 0 && !holds(entries, value) {
        entries
    } else {
        remembered(entries, limit, value, classified(value))
    }
}

/// One step of value normalisation on a cache: the normalised form of
/// `value` is taken from the cache where it holds the value, and that entry
/// moves to the front; else the form is computed and, but for the empty
/// value, stored at the front.
pub fn classify_with(cache: &mut TextCache, value: &str) -> (out: String)
    ensures
        final(cache).limit() == old(cache).limit(),
        out@ == recalled(old(cache).entries(), value@, classified(value@)),
        final(cache).entries() == value_remembered(
            old(cache).entries(),
            old(cache).limit(),
            value@,
        ),
{
    match cache.get(value) {
        Some(out) => out,
        None => {
            let out = classify(value);
            if !value.is_empty() {
                cache.put(value.to_owned(), out.clone());
            }
            out
        },
    }
}

/// The entries of a topic cache of at most `limit` entries that was empty
/// and has taken one step of topic normalisation for each of `topics`, in
/// their order.
pub open spec fn topics_remembered(limit: nat, topics: Seq<Seq<char>>) -> Seq<
    (Seq<char>, Seq<char>),
>
    decreases topics.len(),
{
    if topics.len() == 0 {
        Seq::empty()
    } else {
        remembered(
            topics_remembered(limit, topics.drop_last()),
            limit,
            topics.last(),
            normalized(topics.last()),
        )
    }
}

/// Each of `topics` with its normalised form.
pub open spec fn normalized_pairs(topics: Seq<Seq<char>>) -> Seq<(Seq<char>, Seq<char>)> {
    Seq::new(topics.len(), |i: int| (topics[i], normalized(topics[i])))
}

/// Whatever topics a topic cache has normalised, it holds no more entries
/// than its limit, no topic twice, and each topic with its normalised form.
pub proof fn topic_cache_stays_within_limit(limit: nat, topics: Seq<Seq<char>>)
    requires
        limit > 0,
    ensures
        topics_remembered(limit, topics).len() <= limit,
        distinct_keys(topics_remembered(limit, topics)),
        forall|i: int|
            0 <= i < topics_remembered(limit, topics).len() ==> (#[trigger] topics_remembered(
                limit,
                topics,
            )[i]).1 == normalized(topics_remembered(limit, topics)[i].0),
    decreases topics.len(),
{
    if topics.len() > 0 {
        let before = topics_remembered(limit, topics.drop_last());
        topic_cache_stays_within_limit(limit, topics.drop_last());
        remembered_keeps_shape(before, limit, topics.last(), normalized(topics.last()));
        remembered_keeps_memo(before, limit, topics.last(), |t: Seq<char>| normalized(t));
    }
}

/// A topic cache that has normalised topics that are all different holds
/// what storing each with its normalised form, in their order, leaves.
pub proof fn distinct_topics_are_stored_in_turn(limit: nat, topics: Seq<Seq<char>>)
    requires
        limit > 0,
        topics.no_duplicates(),
    ensures
        topics_remembered(limit, topics) == filled(limit, normalized_pairs(topics)),
    decreases topics.len(),
{
    if topics.len() > 0 {
        let earlier = topics.drop_last();
        let pairs = normalized_pairs(topics);
        assert(normalized_pairs(earlier) =~= pairs.drop_last());
        distinct_topics_are_stored_in_turn(limit, earlier);
        let held = filled(limit, pairs.drop_last());
        filled_holds_latest(limit, pairs.drop_last());
        if holds(held, topics.last()) {
            let i = slot(held, topics.last());
            let kept: nat = if earlier.len() <= limit {
                earlier.len()
            } else {
                limit
            };
            assert(held == latest(pairs.drop_last(), kept));
            assert(held[i] == pairs.drop_last()[earlier.len() - 1 - i]);
            assert(topics[earlier.len() - 1 - i] == topics[topics.len() - 1]);
        }
        assert(pairs.last() == (topics.last(), normalized(topics.last())));
    }
}

/// A topic cache that was empty and has normalised one topic more than its
/// limit, all of them different, has evicted the first of them, which was
/// used least recently: it is full, does not hold the first topic, and
/// holds each of the others with its normalised form.
pub proof fn topic_cache_evicts_least_recent(limit: nat, topics: Seq<Seq<char>>)
    requires
        limit > 0,
        topics.len() == limit + 1,
        topics.no_duplicates(),
    ensures
        topics_remembered(limit, topics).len() == limit,
        !holds(topics_remembered(limit, topics), topics[0]),
        forall|i: int|
            1 <= i <= limit ==> looked_up(topics_remembered(limit, topics), #[trigger] topics[i])
                == Some(normalized(topics[i])),
{
    let pairs = normalized_pairs(topics);
    distinct_topics_are_stored_in_turn(limit, topics);
    overfull_cache_evicts_least_recent(limit, pairs);
    assert forall|i: int| 1 <= i <= limit implies looked_up(
        topics_remembered(limit, topics),
        #[trigger] topics[i],
    ) == Some(normalized(topics[i])) by {
        assert(pairs[i] == (topics[i], normalized(topics[i])));
    }
}

/// Topic normalisation with a cache.
pub struct TopicNormalizer {
    cache: RwLock<TextCache, TopicMemo>,
    limit: usize,
}

impl TopicNormalizer {
    /// The lock admits caches of the limit that the normaliser was made
    /// with, which is not zero.
    #[verifier::type_invariant]
    spec fn wf(self) -> bool {
        self.cache.pred().limit == self.limit && self.limit > 0
    }

    /// The number of topics that the cache remembers at most.
    pub closed spec fn limit(&self) -> nat {
        self.limit as nat
    }

    /// A normaliser with an empty cache for `cache_size` entries, or for
    /// 64 where `cache_size` is zero.
    pub fn new(cache_size: usize) -> (normalizer: TopicNormalizer)
        ensures
            normalizer.limit() == effective_limit(cache_size),
    {
        let limit = effective_size(cache_size);
        let cache = TextCache::new(cache_size);
        TopicNormalizer { cache: RwLock::new(cache, Ghost(TopicMemo { limit: limit as nat })), limit }
    }

    /// The number of topics that the cache remembers at most.
    pub fn capacity(&self) -> (n: usize)
        ensures
            n == self.limit(),
    {
        self.limit
    }

    /// The number of topics that the cache remembers now. Other callers may
    /// change it at any time; it never exceeds the capacity.
    pub fn cached(&self) -> (n: usize)
        ensures
            n <= self.limit(),
    {
        proof {
            use_type_invariant(self);
        }
        let handle = self.cache.acquire_read();
        let n = handle.borrow().len();
        handle.release_read();
        n
    }

    /// The normalised form of `topic`, from the cache where it is there,
    /// and computed and remembered where it is not.
    pub fn normalize(&self, topic: &str) -> (flat: String)
        ensures
            flat@ == normalized(topic@),
    {
        proof {
            use_type_invariant(self);
        }
        let (mut cache, handle) = self.cache.acquire_write();
        proof {
            remembered_keeps_memo(
                cache.entries(),
                cache.limit(),
                topic@,
                |t: Seq<char>| normalized(t),
            );
        }
        let flat = normalize_with(&mut cache, topic);
        handle.release_write(cache);
        flat
    }
}

/// Value normalisation with a cache.
pub struct BooleanNormalizer {
    cache: RwLock<TextCache, ValueMemo>,
    limit: usize,
}

impl BooleanNormalizer {
    /// The lock admits caches of the limit that the normaliser was made
    /// with, which is not zero.
    #[verifier::type_invariant]
    spec fn wf(self) -> bool {
        self.cache.pred().limit == self.limit && self.limit > 0
    }

    /// The number of values that the cache remembers at most.
    pub closed spec fn limit(&self) -> nat {
        self.limit as nat
    }

    /// A normaliser with an empty cache for `cache_size` entries, or for
    /// 64 where `cache_size` is zero.
    pub fn new(cache_size: usize) -> (normalizer: BooleanNormalizer)
        ensures
            normalizer.limit() == effective_limit(cache_size),
    {
        let limit = effective_size(cache_size);
        let cache = TextCache::new(cache_size);
        BooleanNormalizer {
            cache: RwLock::new(cache, Ghost(ValueMemo { limit: limit as nat })),
            limit,
        }
    }

    /// The number of values that the cache remembers at most.
    pub fn capacity(&self) -> (n: usize)
        ensures
            n == self.limit(),
    {
        self.limit
    }

    /// The number of values that the cache remembers now. Other callers may
    /// change it at any time; it never exceeds the capacity.
    pub fn cached(&self) -> (n: usize)
        ensures
            n <= self.limit(),
    {
        proof {
            use_type_invariant(self);
        }
        let handle = self.cache.acquire_read();
        let n = handle.borrow().len();
        handle.release_read();
        n
    }

    /// The normalised form of `value`, from the cache where it is there,
    /// and computed and remembered where it is not. The empty value is not
    /// remembered.
    pub fn classify(&self, value: &str) -> (out: String)
        ensures
            out@ == classified(value@),
    {
        proof {
            use_type_invariant(self);
        }
        let (mut cache, handle) = self.cache.acquire_write();
        proof {
            remembered_keeps_memo(
                cache.entries(),
                cache.limit(),
                value@,
                |v: Seq<char>| classified(v),
            );
        }
        let out = classify_with(&mut cache, value);
        handle.release_write(cache);
        out
    }
}

} // verus!
