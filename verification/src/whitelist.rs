//! The topic whitelist: the normalised topics that may be forwarded. An
//! empty whitelist is switched off and lets every topic pass.

use crate::normalize::normalized;
use crate::text::clone_texts;
use vstd::hash_set::StringHashSet;
use vstd::prelude::*;

verus! {

/// Whether a topic passes a whitelist: every topic passes the empty
/// whitelist, and a topic passes any other when its normalised form is
/// listed.
pub open spec fn admits(listed: Set<Seq<char>>, topic: Seq<char>) -> bool {
    listed == Set::<Seq<char>>::empty() || listed.contains(normalized(topic))
}

/// The topics of `topics`, each once, in the order in which they first
/// occur.
pub open spec fn first_occurrences(topics: Seq<Seq<char>>) -> Seq<Seq<char>>
    decreases topics.len(),
{
    if topics.len() == 0 {
        Seq::empty()
    } else if topics.drop_last().contains(topics.last()) {
        first_occurrences(topics.drop_last())
    } else {
        first_occurrences(topics.drop_last()).push(topics.last())
    }
}

/// A set of normalised topics.
pub struct TopicWhitelist {
    set: StringHashSet,
    listed: Vec<String>,
}

impl View for TopicWhitelist {
    type V = Set<Seq<char>>;

    /// The topics of the whitelist.
    closed spec fn view(&self) -> Set<Seq<char>> {
        self.set@
    }
}

impl TopicWhitelist {
    /// The list names each topic of the set, once.
    #[verifier::type_invariant]
    spec fn wf(self) -> bool {
        &&& self.set@ == self.listed.deep_view().to_set()
        &&& self.listed.deep_view().no_duplicates()
    }

    /// The topics of the whitelist, each once, in the order in which they
    /// were first given.
    pub closed spec fn in_order(&self) -> Seq<Seq<char>> {
        self.listed.deep_view()
    }

    /// The whitelist of the given topics; a topic given twice is listed
    /// once.
    pub fn new(topics: Vec<String>) -> (whitelist: TopicWhitelist)
        ensures
            whitelist@ == topics.deep_view().to_set(),
            whitelist.in_order() == first_occurrences(topics.deep_view()),
    {
        let mut set = StringHashSet::new();
        let mut listed: Vec<String> = Vec::new();
        let ghost all = topics.deep_view();
        assert(all.len() == topics.len());
        assert(listed.deep_view() =~= Seq::empty());
        assert(all.take(0).to_set() =~= Set::<Seq<char>>::empty());
        assert(listed.deep_view().to_set() =~= Set::<Seq<char>>::empty());
        let mut i: usize = 0;
        for topic in it: topics
            invariant
                i == it.index(),
                all.len() == it.seq().len(),
                all.len() <= usize::MAX,
                forall|k: int| 0 <= k < all.len() ==> all[k] == (#[trigger] it.seq()[k])@,
                set@ == all.take(i as int).to_set(),
                set@ == listed.deep_view().to_set(),
                listed.deep_view().no_duplicates(),
                listed.deep_view() == first_occurrences(all.take(i as int)),
        {
            let ghost before = listed.deep_view();
            proof {
                let now = all.take(i + 1);
                assert(now =~= all.take(i as int).push(topic@));
                assert(now.drop_last() =~= all.take(i as int));
                assert(now.last() == topic@);
                assert(now.to_set() =~= all.take(i as int).to_set().insert(topic@)) by {
                    assert forall|t: Seq<char>|
                        now.to_set().contains(t) == all.take(i as int).to_set().insert(
                            topic@,
                        ).contains(t) by {
                        if now.contains(t) {
                            let k = choose|k: int| 0 <= k < now.len() && now[k] == t;
                            if k < i {
                                assert(all.take(i as int)[k] == t);
                            }
                        }
                        if all.take(i as int).contains(t) {
                            let k = choose|k: int|
                                0 <= k < all.take(i as int).len() && all.take(i as int)[k] == t;
                            assert(now[k] == t);
                        }
                        if t == topic@ {
                            assert(now[i as int] == t);
                        }
                    }
                }
            }
            if set.insert(topic.clone()) {
                listed.push(topic);
                proof {
                    let after = listed.deep_view();
                    assert(after =~= before.push(topic@));
                    assert(!before.contains(topic@));
                    assert(after.to_set() =~= before.to_set().insert(topic@)) by {
                        assert forall|t: Seq<char>|
                            after.to_set().contains(t) == before.to_set().insert(topic@).contains(
                                t,
                            ) by {
                            if after.contains(t) {
                                let k = choose|k: int| 0 <= k < after.len() && after[k] == t;
                                if k < before.len() {
                                    assert(before[k] == t);
                                }
                            }
                            if before.contains(t) {
                                let k = choose|k: int| 0 <= k < before.len() && before[k] == t;
                                assert(after[k] == t);
                            }
                            if t == topic@ {
                                assert(after[before.len() as int] == t);
                            }
                        }
                    }
                    assert forall|a: int, b: int|
                        0 <= a < after.len() && 0 <= b < after.len() && a != b implies after[a]
                        != after[b] by {
                        if a == before.len() {
                            assert(before.contains(after[b]));
                        } else if b == before.len() {
                            assert(before.contains(after[a]));
                        }
                    }
                }
            }
            i = i + 1;
        }
        assert(all.take(all.len() as int) =~= all);
        TopicWhitelist { set, listed }
    }

    /// Whether the whitelist lists no topic, and so is switched off.
    pub fn is_empty(&self) -> (yes: bool)
        ensures
            yes == (self@ == Set::<Seq<char>>::empty()),
    {
        proof {
            use_type_invariant(self);
            if self.listed.len() > 0 {
                assert(self.listed.deep_view().contains(self.listed.deep_view()[0]));
                assert(self.set@.contains(self.listed.deep_view()[0]));
            } else {
                assert(self.listed.deep_view().to_set() =~= Set::<Seq<char>>::empty());
            }
        }
        self.listed.len() == 0
    }

    /// Whether `topic`, taken as it is, is listed.
    pub fn contains(&self, topic: &str) -> (yes: bool)
        ensures
            yes == self@.contains(topic@),
    {
        self.set.contains(topic)
    }

    /// The topics of the whitelist, each once, in the order in which they
    /// were first given.
    pub fn topics(&self) -> (topics: Vec<String>)
        ensures
            topics.deep_view() == self.in_order(),
            topics.deep_view().to_set() == self@,
            topics.deep_view().no_duplicates(),
    {
        proof {
            use_type_invariant(self);
        }
        clone_texts(&self.listed)
    }
}

/// The empty whitelist lets every topic pass.
pub proof fn empty_whitelist_admits_all(topic: Seq<char>)
    ensures
        admits(Set::empty(), topic),
{
}

} // verus!
