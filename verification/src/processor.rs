//! The processing pipeline: from one inbound topic and payload to the list
//! of what is forwarded.
//!
//! A message passes the stages in a fixed order: the subscription filter on
//! its own topic, the flattening of its payload into candidates, and then,
//! candidate by candidate, the whitelist, the subscription filter once more,
//! the do-not-forward filter, and the normalisation of the value. The
//! pipeline computes; sending what it returns is left to the caller.

use crate::boolean::classified;
use crate::cache::effective_limit;
use crate::config::GlobalConfig;
use crate::filter::{any_matches, accepted_patterns, FilterSet};
use crate::flatten::{expand, flatten_outcome, flatten_parsed, read_if, read_payload};
use crate::json::{option_view, JsonValue, JsonView};
use crate::memo::{BooleanNormalizer, TopicNormalizer};
use crate::normalize::normalized;
use crate::text::clone_texts;
use crate::whitelist::{admits, first_occurrences, TopicWhitelist};
use vstd::prelude::*;

verus! {

/// One forwarded result: the topic of the candidate, its normalised form,
/// and the normalised value.
#[derive(Clone, Debug, PartialEq, Eq)]
pub struct Forward {
    pub topic: String,
    pub normalized_topic: String,
    pub value: String,
}

/// The view of a [`Forward`].
pub struct ForwardView {
    pub topic: Seq<char>,
    pub normalized_topic: Seq<char>,
    pub value: Seq<char>,
}

impl View for Forward {
    type V = ForwardView;

    open spec fn view(&self) -> ForwardView {
        ForwardView {
            topic: self.topic@,
            normalized_topic: self.normalized_topic@,
            value: self.value@,
        }
    }
}

impl DeepView for Forward {
    type V = ForwardView;

    open spec fn deep_view(&self) -> ForwardView {
        self@
    }
}

/// Whether a candidate of the topic `topic` is forwarded: the whitelist
/// admits it, and neither the subscription filter nor the do-not-forward
/// filter matches it.
pub open spec fn passes(
    subscription: Seq<Seq<char>>,
    blocked: Seq<Seq<char>>,
    listed: Set<Seq<char>>,
    topic: Seq<char>,
) -> bool {
    &&& admits(listed, topic)
    &&& !any_matches(subscription, topic)
    &&& !any_matches(blocked, topic)
}

/// [`passes`], as a predicate on candidates.
pub open spec fn passing(
    subscription: Seq<Seq<char>>,
    blocked: Seq<Seq<char>>,
    listed: Set<Seq<char>>,
) -> spec_fn((Seq<char>, Seq<char>)) -> bool {
    |candidate: (Seq<char>, Seq<char>)| passes(subscription, blocked, listed, candidate.0)
}

/// What is forwarded for a candidate that passes: its topic as it is, the
/// normalised topic, and the normalised value.
pub open spec fn forward_of(candidate: (Seq<char>, Seq<char>)) -> ForwardView {
    ForwardView {
        topic: candidate.0,
        normalized_topic: normalized(candidate.0),
        value: classified(candidate.1),
    }
}

/// [`forward_of`], as a function on candidates.
pub open spec fn forwarding() -> spec_fn((Seq<char>, Seq<char>)) -> ForwardView {
    |candidate: (Seq<char>, Seq<char>)| forward_of(candidate)
}

/// What is forwarded of a list of candidates: for each candidate that
/// passes, in the order of the candidates, its forwarded result.
pub open spec fn forwards(
    candidates: Seq<(Seq<char>, Seq<char>)>,
    subscription: Seq<Seq<char>>,
    blocked: Seq<Seq<char>>,
    listed: Set<Seq<char>>,
) -> Seq<ForwardView> {
    candidates.filter(passing(subscription, blocked, listed)).map_values(forwarding())
}

/// The candidates of a message, given what reading its payload gave: none
/// where the subscription filter matches the topic of the message, and
/// else what flattening gives.
pub open spec fn candidates_of(
    subscription: Seq<Seq<char>>,
    expand_json: bool,
    topic: Seq<char>,
    payload: Seq<char>,
    parsed: Option<JsonView>,
) -> Seq<(Seq<char>, Seq<char>)> {
    if any_matches(subscription, topic) {
        Seq::empty()
    } else {
        flatten_outcome(topic, payload, expand_json, parsed)
    }
}

/// What is forwarded of a message, given what reading its payload gave:
/// nothing where the subscription filter matches the topic of the message,
/// and else what is forwarded of its candidates.
pub open spec fn processed(
    subscription: Seq<Seq<char>>,
    blocked: Seq<Seq<char>>,
    listed: Set<Seq<char>>,
    expand_json: bool,
    topic: Seq<char>,
    payload: Seq<char>,
    parsed: Option<JsonView>,
) -> Seq<ForwardView> {
    if any_matches(subscription, topic) {
        Seq::empty()
    } else {
        forwards(flatten_outcome(topic, payload, expand_json, parsed), subscription, blocked, listed)
    }
}

/// The processor of inbound messages: the two filter sets, the whitelist,
/// the two normalisers with their caches, and the configuration, which is
/// read anew on every call.
pub struct MiniserverDataProcessor {
    pub global_config: GlobalConfig,
    subscription_filter: FilterSet,
    do_not_forward: FilterSet,
    topic_whitelist: TopicWhitelist,
    topics: TopicNormalizer,
    values: BooleanNormalizer,
}

impl MiniserverDataProcessor {
    /// The configuration, as it stands now.
    pub closed spec fn config(&self) -> GlobalConfig {
        self.global_config
    }

    /// The patterns of the subscription filter.
    pub closed spec fn subscription(&self) -> Seq<Seq<char>> {
        self.subscription_filter@
    }

    /// The patterns of the do-not-forward filter.
    pub closed spec fn blocked(&self) -> Seq<Seq<char>> {
        self.do_not_forward@
    }

    /// The topics of the whitelist.
    pub closed spec fn listed(&self) -> Set<Seq<char>> {
        self.topic_whitelist@
    }

    /// The number of entries that the cache of topics holds at most.
    pub closed spec fn cache_limit(&self) -> nat {
        self.topics.limit()
    }

    /// The topics of the whitelist, each once, in the order in which they
    /// were first given.
    pub closed spec fn listed_in_order(&self) -> Seq<Seq<char>> {
        self.topic_whitelist.in_order()
    }

    /// The number of entries that the cache of values holds at most.
    pub closed spec fn value_cache_limit(&self) -> nat {
        self.values.limit()
    }

    /// A processor for the given configuration: its subscription filter has
    /// the configured patterns that are accepted, its do-not-forward filter is
    /// empty, its whitelist holds the configured topics, and its caches are
    /// empty and of the configured size.
    pub fn new(global_config: GlobalConfig) -> (processor: MiniserverDataProcessor)
        ensures
            processor.config() == global_config,
            processor.subscription() == accepted_patterns(
                global_config.topics.subscription_filters.deep_view(),
            ),
            processor.blocked() == Seq::<Seq<char>>::empty(),
            processor.listed() == global_config.topics.topic_whitelist.deep_view().to_set(),
            processor.listed_in_order() == first_occurrences(
                global_config.topics.topic_whitelist.deep_view(),
            ),
            processor.cache_limit() == effective_limit(global_config.general.cache_size),
            processor.value_cache_limit() == effective_limit(global_config.general.cache_size),
    {
        let subscription_filter = FilterSet::compile(
            clone_texts(&global_config.topics.subscription_filters),
        );
        let topic_whitelist = TopicWhitelist::new(
            clone_texts(&global_config.topics.topic_whitelist),
        );
        let topics = TopicNormalizer::new(global_config.general.cache_size);
        let values = BooleanNormalizer::new(global_config.general.cache_size);
        MiniserverDataProcessor {
            global_config,
            subscription_filter,
            do_not_forward: FilterSet::empty(),
            topic_whitelist,
            topics,
            values,
        }
    }

    /// Replaces the subscription filter by the one that `filters` compiles
    /// to. Nothing else changes.
    pub fn update_subscription_filters(&mut self, filters: Vec<String>)
        ensures
            final(self).subscription() == accepted_patterns(filters.deep_view()),
            final(self).blocked() == old(self).blocked(),
            final(self).listed() == old(self).listed(),
            final(self).listed_in_order() == old(self).listed_in_order(),
            final(self).cache_limit() == old(self).cache_limit(),
            final(self).value_cache_limit() == old(self).value_cache_limit(),
            final(self).config() == old(self).config(),
    {
        self.subscription_filter = FilterSet::compile(filters);
    }

    /// Replaces the whitelist by the set of the given topics. Nothing else
    /// changes.
    pub fn update_topic_whitelist(&mut self, whitelist: Vec<String>)
        ensures
            final(self).listed() == whitelist.deep_view().to_set(),
            final(self).listed_in_order() == first_occurrences(whitelist.deep_view()),
            final(self).subscription() == old(self).subscription(),
            final(self).blocked() == old(self).blocked(),
            final(self).cache_limit() == old(self).cache_limit(),
            final(self).value_cache_limit() == old(self).value_cache_limit(),
            final(self).config() == old(self).config(),
    {
        self.topic_whitelist = TopicWhitelist::new(whitelist);
    }

    /// Replaces the do-not-forward filter by the one that `filters`
    /// compiles to. Nothing else changes.
    pub fn update_do_not_forward(&mut self, filters: Vec<String>)
        ensures
            final(self).blocked() == accepted_patterns(filters.deep_view()),
            final(self).subscription() == old(self).subscription(),
            final(self).listed() == old(self).listed(),
            final(self).listed_in_order() == old(self).listed_in_order(),
            final(self).cache_limit() == old(self).cache_limit(),
            final(self).value_cache_limit() == old(self).value_cache_limit(),
            final(self).config() == old(self).config(),
    {
        self.do_not_forward = FilterSet::compile(filters);
    }

    /// The base topic, as the configuration gives it now.
    pub fn base_topic(&self) -> (base: &str)
        ensures
            base@ == self.config().general.base_topic@,
    {
        self.global_config.general.base_topic.as_str()
    }

    /// Whether the configuration asks now for reports on the candidates.
    pub fn publishes_processed_topics(&self) -> (yes: bool)
        ensures
            yes == self.config().debug.publish_processed_topics,
    {
        self.global_config.debug.publish_processed_topics
    }

    /// Whether the configuration asks now for the flattening of payloads.
    pub fn expands_json(&self) -> (yes: bool)
        ensures
            yes == self.config().processing.expand_json,
    {
        self.global_config.processing.expand_json
    }

    /// The patterns of the do-not-forward filter, as they were given.
    pub fn get_do_not_forward_patterns(&self) -> (patterns: Vec<String>)
        ensures
            patterns.deep_view() == self.blocked(),
    {
        self.do_not_forward.describe()
    }

    /// The patterns of the subscription filter, as they were given.
    pub fn get_subscription_filters(&self) -> (patterns: Vec<String>)
        ensures
            patterns.deep_view() == self.subscription(),
    {
        self.subscription_filter.describe()
    }

    /// The topics of the whitelist, each once, in the order in which they
    /// were first given.
    pub fn get_topic_whitelist(&self) -> (topics: Vec<String>)
        ensures
            topics.deep_view() == self.listed_in_order(),
            topics.deep_view().to_set() == self.listed(),
            topics.deep_view().no_duplicates(),
    {
        self.topic_whitelist.topics()
    }

    /// The normalised form of `val`: `1` or `0` for a boolean word, and
    /// `val` itself for any other value.
    pub fn _convert_boolean(&self, val: &str) -> (out: String)
        ensures
            out@ == classified(val@),
    {
        self.values.classify(val)
    }

    /// The normalised form of `topic`.
    pub fn normalize_topic(&self, topic: &str) -> (flat: String)
        ensures
            flat@ == normalized(topic@),
    {
        self.topics.normalize(topic)
    }

    /// The pairs that the value `val` under `topic` expands to: `val` is read
    /// as JSON, whatever the configuration says of expansion; an object gives
    /// its pairs, and any other value the one pair of `topic` and `val`.
    pub fn expand_json(&self, topic: &str, val: &str) -> (pairs: Vec<(String, String)>)
        ensures
            pairs.deep_view() == flatten_outcome(topic@, val@, true, read_payload(val@)),
    {
        expand(topic, val)
    }

    /// Whether the normalised form of `topic` is listed in the whitelist.
    pub fn is_in_whitelist(&self, topic: &str) -> (yes: bool)
        ensures
            yes == self.listed().contains(normalized(topic@)),
    {
        let flat = self.topics.normalize(topic);
        self.topic_whitelist.contains(flat.as_str())
    }

    /// What is forwarded of the given candidates: each candidate that the
    /// whitelist admits and that neither filter matches, in the order of
    /// the candidates, with its normalised topic and its normalised value.
    pub fn select_forwards(&self, candidates: Vec<(String, String)>) -> (out: Vec<Forward>)
        ensures
            out.deep_view() == forwards(
                candidates.deep_view(),
                self.subscription(),
                self.blocked(),
                self.listed(),
            ),
    {
        let ghost all = candidates.deep_view();
        let ghost pass = passing(self.subscription(), self.blocked(), self.listed());
        let mut out: Vec<Forward> = Vec::new();
        proof {
            reveal(Seq::filter);
            assert(all.take(0).filter(pass) =~= Seq::empty());
            assert(out.deep_view() =~= all.take(0).filter(pass).map_values(forwarding()));
            assert(all.len() == candidates.len());
        }
        let mut i: usize = 0;
        for candidate in it: candidates
            invariant
                i == it.index(),
                all.len() == it.seq().len(),
                all.len() <= usize::MAX,
                pass == passing(self.subscription(), self.blocked(), self.listed()),
                forall|k: int|
                    0 <= k < all.len() ==> all[k] == (
                        (#[trigger] it.seq()[k]).0@,
                        it.seq()[k].1@,
                    ),
                out.deep_view() == all.take(i as int).filter(pass).map_values(forwarding()),
        {
            let (topic, value) = candidate;
            let ghost pair = (topic@, value@);
            let ghost before = out.deep_view();
            proof {
                assert(all.take(i + 1) =~= all.take(i as int).push(pair));
                all.take(i as int).lemma_filter_push(pair, pass);
                if pass(pair) {
                    assert(all.take(i as int).filter(pass).push(pair).map_values(forwarding())
                        =~= all.take(i as int).filter(pass).map_values(forwarding()).push(
                        forward_of(pair),
                    ));
                }
            }
            let normalized_topic = self.topics.normalize(topic.as_str());
            let admitted = self.topic_whitelist.is_empty() || self.topic_whitelist.contains(
                normalized_topic.as_str(),
            );
            if admitted && !self.subscription_filter.matches(topic.as_str())
                && !self.do_not_forward.matches(topic.as_str()) {
                let value = self.values.classify(value.as_str());
                out.push(Forward { topic, normalized_topic, value });
                assert(out.deep_view() =~= before.push(forward_of(pair)));
            }
            i = i + 1;
        }
        assert(all.take(all.len() as int) =~= all);
        out
    }

    /// The candidates of a message, given what reading its payload as JSON
    /// gave: none where the subscription filter matches the topic, and else
    /// what flattening gives.
    pub fn candidates_parsed(
        &self,
        topic: &str,
        message: &str,
        expand_json: bool,
        parsed: Option<JsonValue>,
    ) -> (out: Vec<(String, String)>)
        ensures
            out.deep_view() == candidates_of(
                self.subscription(),
                expand_json,
                topic@,
                message@,
                option_view(parsed),
            ),
    {
        if self.subscription_filter.matches(topic) {
            let out: Vec<(String, String)> = Vec::new();
            assert(out.deep_view() =~= Seq::empty());
            out
        } else {
            flatten_parsed(topic, message, expand_json, parsed)
        }
    }

    /// What is forwarded of a message, given whether payloads are expanded
    /// and what reading its payload as JSON gave.
    pub fn process_parsed(
        &self,
        topic: &str,
        message: &str,
        expand_json: bool,
        parsed: Option<JsonValue>,
    ) -> (out: Vec<Forward>)
        ensures
            out.deep_view() == processed(
                self.subscription(),
                self.blocked(),
                self.listed(),
                expand_json,
                topic@,
                message@,
                option_view(parsed),
            ),
    {
        proof {
            processed_is_forwards_of_candidates(
                self.subscription(),
                self.blocked(),
                self.listed(),
                expand_json,
                topic@,
                message@,
                option_view(parsed),
            );
        }
        self.select_forwards(self.candidates_parsed(topic, message, expand_json, parsed))
    }

    /// Reads the payload of a message as JSON where that can matter: where
    /// the configuration asks for expansion now and the subscription filter
    /// lets the topic through. What comes back decides the candidates of the
    /// message as the reading of the payload does.
    pub fn read_message(&self, topic: &str, message: &str) -> (parsed: Option<JsonValue>)
        ensures
            candidates_of(
                self.subscription(),
                self.config().processing.expand_json,
                topic@,
                message@,
                option_view(parsed),
            ) == candidates_of(
                self.subscription(),
                self.config().processing.expand_json,
                topic@,
                message@,
                read_payload(message@),
            ),
    {
        let wanted = self.global_config.processing.expand_json
            && !self.subscription_filter.matches(topic);
        read_if(wanted, message)
    }

    /// The candidates of a message: none where the subscription filter
    /// matches the topic, and else what flattening gives, with expansion as
    /// the configuration asks for it now.
    pub fn candidates(&self, topic: &str, message: &str) -> (out: Vec<(String, String)>)
        ensures
            out.deep_view() == candidates_of(
                self.subscription(),
                self.config().processing.expand_json,
                topic@,
                message@,
                read_payload(message@),
            ),
            forwards(out.deep_view(), self.subscription(), self.blocked(), self.listed())
                == processed(
                self.subscription(),
                self.blocked(),
                self.listed(),
                self.config().processing.expand_json,
                topic@,
                message@,
                read_payload(message@),
            ),
    {
        proof {
            processed_is_forwards_of_candidates(
                self.subscription(),
                self.blocked(),
                self.listed(),
                self.config().processing.expand_json,
                topic@,
                message@,
                read_payload(message@),
            );
        }
        let parsed = self.read_message(topic, message);
        self.candidates_parsed(topic, message, self.global_config.processing.expand_json, parsed)
    }

    /// What is forwarded of a message. Nothing is, where the subscription
    /// filter matches the topic. Else the payload is flattened, if the
    /// configuration asks for it now and the payload is a JSON object, and
    /// each candidate passes the whitelist and the two filters or is dropped.
    pub fn process_data(&self, topic: &str, message: &str) -> (out: Vec<Forward>)
        ensures
            out.deep_view() == processed(
                self.subscription(),
                self.blocked(),
                self.listed(),
                self.config().processing.expand_json,
                topic@,
                message@,
                read_payload(message@),
            ),
    {
        let parsed = self.read_message(topic, message);
        proof {
            processed_is_forwards_of_candidates(
                self.subscription(),
                self.blocked(),
                self.listed(),
                self.config().processing.expand_json,
                topic@,
                message@,
                option_view(parsed),
            );
            processed_is_forwards_of_candidates(
                self.subscription(),
                self.blocked(),
                self.listed(),
                self.config().processing.expand_json,
                topic@,
                message@,
                read_payload(message@),
            );
        }
        self.process_parsed(topic, message, self.global_config.processing.expand_json, parsed)
    }
}

/// What is forwarded of a message is what is forwarded of its candidates.
pub proof fn processed_is_forwards_of_candidates(
    subscription: Seq<Seq<char>>,
    blocked: Seq<Seq<char>>,
    listed: Set<Seq<char>>,
    expand_json: bool,
    topic: Seq<char>,
    payload: Seq<char>,
    parsed: Option<JsonView>,
)
    ensures
        processed(subscription, blocked, listed, expand_json, topic, payload, parsed) == forwards(
            candidates_of(subscription, expand_json, topic, payload, parsed),
            subscription,
            blocked,
            listed,
        ),
{
    reveal(Seq::filter);
    let none = Seq::<(Seq<char>, Seq<char>)>::empty();
    assert(none.filter(passing(subscription, blocked, listed)).map_values(forwarding())
        =~= Seq::<ForwardView>::empty());
}

/// Where every candidate passes, what is forwarded is the forwarded result
/// of each candidate, in order.
pub proof fn passing_candidates_are_all_forwarded(
    candidates: Seq<(Seq<char>, Seq<char>)>,
    subscription: Seq<Seq<char>>,
    blocked: Seq<Seq<char>>,
    listed: Set<Seq<char>>,
)
    requires
        forall|i: int|
            0 <= i < candidates.len() ==> passes(
                subscription,
                blocked,
                listed,
                (#[trigger] candidates[i]).0,
            ),
    ensures
        forwards(candidates, subscription, blocked, listed) == candidates.map_values(forwarding()),
{
    let pass = passing(subscription, blocked, listed);
    assert forall|i: int| 0 <= i < candidates.len() implies pass(#[trigger] candidates[i]) by {
        assert(passes(subscription, blocked, listed, candidates[i].0));
    }
    kept_when_all_pass(candidates, pass);
}

/// A filter that every item passes keeps the sequence as it is.
pub proof fn kept_when_all_pass(
    items: Seq<(Seq<char>, Seq<char>)>,
    pass: spec_fn((Seq<char>, Seq<char>)) -> bool,
)
    requires
        forall|i: int| 0 <= i < items.len() ==> pass(#[trigger] items[i]),
    ensures
        items.filter(pass) == items,
    decreases items.len(),
{
    reveal(Seq::filter);
    if items.len() > 0 {
        let rest = items.drop_last();
        assert forall|i: int| 0 <= i < rest.len() implies pass(#[trigger] rest[i]) by {
            assert(rest[i] == items[i]);
        }
        kept_when_all_pass(rest, pass);
        assert(pass(items.last()));
        assert(items.filter(pass) =~= items);
    } else {
        assert(items.filter(pass) =~= items);
    }
}

/// A candidate whose normalised topic a whitelist that is not empty does
/// not list is dropped, whatever the filters say.
pub proof fn unlisted_candidate_is_dropped(
    subscription: Seq<Seq<char>>,
    blocked: Seq<Seq<char>>,
    listed: Set<Seq<char>>,
    topic: Seq<char>,
)
    requires
        listed != Set::<Seq<char>>::empty(),
        !listed.contains(normalized(topic)),
    ensures
        !passes(subscription, blocked, listed, topic),
{
}

/// Without filters and without a whitelist every candidate is forwarded.
pub proof fn open_pipeline_forwards_every_candidate(candidates: Seq<(Seq<char>, Seq<char>)>)
    ensures
        forwards(candidates, Seq::empty(), Seq::empty(), Set::empty()) == candidates.map_values(
            forwarding(),
        ),
{
    passing_candidates_are_all_forwarded(candidates, Seq::empty(), Seq::empty(), Set::empty());
}

/// A message whose topic the subscription filter matches yields nothing,
/// whatever its payload.
pub proof fn filtered_topic_yields_nothing(
    subscription: Seq<Seq<char>>,
    blocked: Seq<Seq<char>>,
    listed: Set<Seq<char>>,
    expand_json: bool,
    topic: Seq<char>,
    payload: Seq<char>,
    parsed: Option<JsonView>,
)
    requires
        any_matches(subscription, topic),
    ensures
        processed(subscription, blocked, listed, expand_json, topic, payload, parsed).len() == 0,
{
}

} // verus!
