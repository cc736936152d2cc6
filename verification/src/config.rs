//! The configuration that a processor is made from and reads on every
//! call, and the control topics of the relay.

use vstd::prelude::*;

verus! {

/// General settings.
#[derive(Clone, Debug, PartialEq, Eq)]
pub struct GeneralConfig {
    /// The number of entries of each cache; zero asks for the default.
    pub cache_size: usize,
    /// The prefix of the topics that belong to the relay itself.
    pub base_topic: String,
}

impl GeneralConfig {
    pub fn new(cache_size: usize, base_topic: String) -> (config: GeneralConfig)
        ensures
            config.cache_size == cache_size,
            config.base_topic == base_topic,
    {
        GeneralConfig { cache_size, base_topic }
    }
}

/// Settings on topics.
#[derive(Clone, Debug, PartialEq, Eq)]
pub struct TopicsConfig {
    /// The patterns of the topics that are not processed at all.
    pub subscription_filters: Vec<String>,
    /// The normalised topics that may be forwarded; none lets all pass.
    pub topic_whitelist: Vec<String>,
}

impl TopicsConfig {
    pub fn new(subscription_filters: Vec<String>, topic_whitelist: Vec<String>) -> (config:
        TopicsConfig)
        ensures
            config.subscription_filters == subscription_filters,
            config.topic_whitelist == topic_whitelist,
    {
        TopicsConfig { subscription_filters, topic_whitelist }
    }
}

/// Settings on the processing of payloads.
#[derive(Clone, Debug, PartialEq, Eq)]
pub struct ProcessingConfig {
    /// Whether a payload that is a JSON object is flattened.
    pub expand_json: bool,
}

impl ProcessingConfig {
    pub fn new(expand_json: bool) -> (config: ProcessingConfig)
        ensures
            config.expand_json == expand_json,
    {
        ProcessingConfig { expand_json }
    }
}

/// Settings for diagnosis.
#[derive(Clone, Debug, PartialEq, Eq)]
pub struct DebugConfig {
    /// Whether each candidate is reported on the bus before it is filtered.
    pub publish_processed_topics: bool,
}

impl DebugConfig {
    pub fn new(publish_processed_topics: bool) -> (config: DebugConfig)
        ensures
            config.publish_processed_topics == publish_processed_topics,
    {
        DebugConfig { publish_processed_topics }
    }
}

/// The whole configuration.
#[derive(Clone, Debug, PartialEq, Eq)]
pub struct GlobalConfig {
    pub general: GeneralConfig,
    pub topics: TopicsConfig,
    pub processing: ProcessingConfig,
    pub debug: DebugConfig,
}

impl GlobalConfig {
    pub fn new(
        general: GeneralConfig,
        topics: TopicsConfig,
        processing: ProcessingConfig,
        debug: DebugConfig,
    ) -> (config: GlobalConfig)
        ensures
            config.general == general,
            config.topics == topics,
            config.processing == processing,
            config.debug == debug,
    {
        GlobalConfig { general, topics, processing, debug }
    }
}

/// The control topics of the relay: a message on one of them is an order to
/// the relay and is not forwarded.
#[derive(Clone, Debug, PartialEq, Eq)]
pub struct MqttTopics {
    pub start_ui_topic: String,
    pub stop_ui_topic: String,
    pub miniserver_startup_topic: String,
    pub config_get_topic: String,
    pub config_response_topic: String,
    pub config_set_topic: String,
    pub config_add_topic: String,
    pub config_remove_topic: String,
    pub config_update_topic: String,
    pub config_restart_topic: String,
}

} // verus!
