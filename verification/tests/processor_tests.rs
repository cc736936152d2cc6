use loxmqttrelay::config::{
    DebugConfig, GeneralConfig, GlobalConfig, ProcessingConfig, TopicsConfig,
};
use loxmqttrelay::json::{JsonNumber, JsonValue};
use loxmqttrelay::processor::{Forward, MiniserverDataProcessor};

fn texts(items: &[&str]) -> Vec<String> {
    items.iter().map(|s| s.to_string()).collect()
}

/// Patterns that the `regex` crate compiles one by one and refuses
/// together, as too large, with the number of word characters that each
/// asks for.
fn too_large_together() -> (Vec<String>, usize) {
    let width = [400, 300, 200, 100, 50]
        .into_iter()
        .find(|n| regex::Regex::new(&format!("^0:\\w{{{}}}$", n)).is_ok())
        .expect("one of the patterns was expected to compile");
    let mut patterns: Vec<String> = Vec::new();
    for i in 0..64 {
        let pattern = format!("^{}:\\w{{{}}}$", i, width);
        assert!(regex::Regex::new(&pattern).is_ok());
        patterns.push(pattern);
        if regex::RegexSet::new(&patterns).is_err() {
            return (patterns, width);
        }
    }
    panic!("the patterns were expected to be too large together");
}

fn config(filters: &[&str], whitelist: &[&str], expand: bool) -> GlobalConfig {
    GlobalConfig::new(
        GeneralConfig::new(4, "relay".to_string()),
        TopicsConfig::new(texts(filters), texts(whitelist)),
        ProcessingConfig::new(expand),
        DebugConfig::new(false),
    )
}

fn processor(filters: &[&str], whitelist: &[&str], expand: bool) -> MiniserverDataProcessor {
    MiniserverDataProcessor::new(config(filters, whitelist, expand))
}

fn triples(forwards: &[Forward]) -> Vec<(String, String, String)> {
    forwards
        .iter()
        .map(|f| (f.topic.clone(), f.normalized_topic.clone(), f.value.clone()))
        .collect()
}

fn expected(items: &[(&str, &str, &str)]) -> Vec<(String, String, String)> {
    items.iter().map(|(a, b, c)| (a.to_string(), b.to_string(), c.to_string())).collect()
}

#[test]
fn flatten_scenario_forwards_two_results() {
    let p = processor(&[], &[], true);
    let out = p.process_data("sensors", r#"{"a":1,"b":{"c":2}}"#);
    assert_eq!(
        triples(&out),
        expected(&[("sensors/a", "sensors_a", "1"), ("sensors/b/c", "sensors_b_c", "2")])
    );
}

#[test]
fn whitelist_gates_by_normalized_topic() {
    let p = processor(&[], &["sensors_a"], true);
    let out = p.process_data("sensors", r#"{"a":1,"b":{"c":2}}"#);
    assert_eq!(triples(&out), expected(&[("sensors/a", "sensors_a", "1")]));
    assert!(p.is_in_whitelist("sensors/a"));
    assert!(p.is_in_whitelist("sensors_a"));
    assert!(p.is_in_whitelist("sensors%a"));
    assert!(!p.is_in_whitelist("sensors/b/c"));
}

#[test]
fn non_object_payload_is_forwarded_as_it_came() {
    let p = processor(&[], &[], true);
    assert_eq!(triples(&p.process_data("x", "[1,2,3]")), expected(&[("x", "x", "[1,2,3]")]));
    assert_eq!(triples(&p.process_data("x", "{not json")), expected(&[("x", "x", "{not json")]));
    assert_eq!(triples(&p.process_data("a/b", "21.5")), expected(&[("a/b", "a_b", "21.5")]));
}

#[test]
fn values_are_normalized() {
    let p = processor(&[], &[], true);
    let out = p.process_data("t", r#"{"a":"ON","b":"Off","c":true,"d":false,"e":" yes ","f":"x"}"#);
    assert_eq!(
        triples(&out),
        expected(&[
            ("t/a", "t_a", "1"),
            ("t/b", "t_b", "0"),
            ("t/c", "t_c", "1"),
            ("t/d", "t_d", "0"),
            ("t/e", "t_e", "1"),
            ("t/f", "t_f", "x"),
        ])
    );
    assert_eq!(triples(&p.process_data("t", "enabled")), expected(&[("t", "t", "1")]));
    assert_eq!(triples(&p.process_data("t", "")), expected(&[("t", "t", "")]));
}

#[test]
fn subscription_filter_on_the_topic_stops_everything() {
    let p = processor(&["^private/"], &[], true);
    assert!(p.process_data("private/x", r#"{"a":1}"#).is_empty());
    assert!(p.process_data("private/", "1").is_empty());
    assert_eq!(triples(&p.process_data("public/x", "1")), expected(&[("public/x", "public_x", "1")]));
}

#[test]
fn subscription_filter_is_applied_again_to_each_candidate() {
    let p = processor(&["/secret$"], &[], true);
    let out = p.process_data("dev", r#"{"a":1,"secret":2,"b":{"secret":3,"c":4}}"#);
    assert_eq!(triples(&out), expected(&[("dev/a", "dev_a", "1"), ("dev/b/c", "dev_b_c", "4")]));
}

#[test]
fn do_not_forward_filter_drops_candidates_only() {
    let mut p = processor(&[], &[], true);
    p.update_do_not_forward(texts(&["^dev$", "/b/"]));
    assert_eq!(p.get_do_not_forward_patterns(), texts(&["^dev$", "/b/"]));
    let out = p.process_data("dev", r#"{"a":1,"b":{"c":4}}"#);
    assert_eq!(triples(&out), expected(&[("dev/a", "dev_a", "1")]));
    assert!(p.process_data("dev", "1").is_empty());
}

#[test]
fn expansion_is_read_from_the_configuration_on_every_call() {
    let mut p = processor(&[], &[], false);
    assert!(!p.expands_json());
    assert_eq!(
        triples(&p.process_data("t", r#"{"a":1}"#)),
        expected(&[("t", "t", r#"{"a":1}"#)])
    );
    p.global_config.processing.expand_json = true;
    assert!(p.expands_json());
    assert_eq!(triples(&p.process_data("t", r#"{"a":1}"#)), expected(&[("t/a", "t_a", "1")]));
}

#[test]
fn new_takes_filters_and_whitelist_from_the_configuration() {
    let p = processor(&["^a", "(", "b$"], &["x", "y", "x"], true);
    assert_eq!(p.get_subscription_filters(), texts(&["^a", "b$"]));
    assert_eq!(p.get_do_not_forward_patterns(), Vec::<String>::new());
    assert_eq!(p.get_topic_whitelist(), texts(&["x", "y"]));
    assert_eq!(p.base_topic(), "relay");
    assert!(!p.publishes_processed_topics());
}

#[test]
fn updates_replace_one_thing_each() {
    let mut p = processor(&["^a"], &["x"], true);
    p.update_subscription_filters(texts(&["^c", "["]));
    assert_eq!(p.get_subscription_filters(), texts(&["^c"]));
    assert_eq!(p.get_topic_whitelist(), texts(&["x"]));
    p.update_topic_whitelist(texts(&["y", "z"]));
    assert_eq!(p.get_topic_whitelist(), texts(&["y", "z"]));
    assert_eq!(p.get_subscription_filters(), texts(&["^c"]));
    p.update_topic_whitelist(Vec::new());
    assert_eq!(p.get_topic_whitelist(), Vec::<String>::new());
    assert_eq!(triples(&p.process_data("any", "1")), expected(&[("any", "any", "1")]));
    p.update_subscription_filters(Vec::new());
    assert_eq!(p.get_subscription_filters(), Vec::<String>::new());
    assert_eq!(triples(&p.process_data("c", "1")), expected(&[("c", "c", "1")]));
}

#[test]
fn processor_methods_agree_with_the_plain_functions() {
    let p = processor(&[], &[], true);
    assert_eq!(p.normalize_topic("a/b%c"), "a_b_c");
    assert_eq!(p.normalize_topic("a/b%c"), "a_b_c");
    assert_eq!(p._convert_boolean("Checked"), "1");
    assert_eq!(p._convert_boolean("Checked"), "1");
    assert_eq!(p._convert_boolean("nope"), "nope");
    assert_eq!(
        p.expand_json("t", r#"{"a":[1,2]}"#),
        vec![("t/a/0".to_string(), "1".to_string()), ("t/a/1".to_string(), "2".to_string())]
    );
    assert_eq!(p.expand_json("t", "plain"), vec![("t".to_string(), "plain".to_string())]);
}

#[test]
fn more_messages_than_the_caches_hold_are_still_right() {
    let p = processor(&[], &[], true);
    for round in 0..3 {
        for i in 0..10 {
            let topic = format!("dev/{}", i);
            let out = p.process_data(&topic, if i % 2 == 0 { "on" } else { "off" });
            assert_eq!(out.len(), 1, "round {}", round);
            assert_eq!(out[0].normalized_topic, format!("dev_{}", i));
            assert_eq!(out[0].value, if i % 2 == 0 { "1" } else { "0" });
        }
    }
}

#[test]
fn select_forwards_filters_and_keeps_order() {
    let mut p = processor(&["drop"], &["keep_1", "keep_2", "drop_3"], true);
    p.update_do_not_forward(texts(&["2$"]));
    let candidates = vec![
        ("keep/1".to_string(), "Yes".to_string()),
        ("other".to_string(), "1".to_string()),
        ("keep/2".to_string(), "1".to_string()),
        ("drop/3".to_string(), "1".to_string()),
        ("keep%1".to_string(), "v".to_string()),
    ];
    assert_eq!(
        triples(&p.select_forwards(candidates)),
        expected(&[("keep/1", "keep_1", "1"), ("keep%1", "keep_1", "v")])
    );
    assert!(p.select_forwards(Vec::new()).is_empty());
}

#[test]
fn process_parsed_follows_the_parsed_value() {
    let p = processor(&[], &[], false);
    let object = || {
        JsonValue::Object(vec![(
            "a".to_string(),
            JsonValue::Number(JsonNumber { signed: Some(7), unsigned: None, float: None }),
        )])
    };
    assert_eq!(
        triples(&p.process_parsed("t", "raw", true, Some(object()))),
        expected(&[("t/a", "t_a", "7")])
    );
    assert_eq!(
        triples(&p.process_parsed("t", "raw", false, Some(object()))),
        expected(&[("t", "t", "raw")])
    );
    assert_eq!(triples(&p.process_parsed("t", "raw", true, None)), expected(&[("t", "t", "raw")]));
}

#[test]
fn process_parsed_yields_nothing_on_a_filtered_topic() {
    let p = processor(&["^t$"], &[], true);
    let object = JsonValue::Object(vec![("a".to_string(), JsonValue::Bool(true))]);
    assert!(p.process_parsed("t", "raw", true, Some(object)).is_empty());
    assert!(p.process_parsed("t", "raw", false, None).is_empty());
    assert_eq!(triples(&p.process_parsed("u", "raw", true, None)), expected(&[("u", "u", "raw")]));
}

#[test]
fn candidates_come_before_whitelist_and_second_pass() {
    let mut p = processor(&["^skip", "/b$"], &["t_a"], true);
    p.update_do_not_forward(texts(&["a$"]));
    assert_eq!(
        p.candidates("t", r#"{"a":"on","b":2}"#),
        vec![("t/a".to_string(), "on".to_string()), ("t/b".to_string(), "2".to_string())]
    );
    assert!(p.candidates("skip/this", r#"{"a":1}"#).is_empty());
    assert_eq!(p.candidates("t", "plain"), vec![("t".to_string(), "plain".to_string())]);
    let candidates = p.candidates("t", r#"{"a":"on","b":2}"#);
    assert_eq!(
        triples(&p.select_forwards(candidates)),
        triples(&p.process_data("t", r#"{"a":"on","b":2}"#))
    );
}

#[test]
fn candidates_parsed_leaves_out_a_filtered_topic() {
    let p = processor(&["^no"], &[], true);
    assert!(p.candidates_parsed("no/way", "x", true, None).is_empty());
    assert_eq!(
        p.candidates_parsed("yes", "x", true, None),
        vec![("yes".to_string(), "x".to_string())]
    );
    let object = JsonValue::Object(vec![("k".to_string(), JsonValue::Null)]);
    assert_eq!(
        p.candidates_parsed("yes", "x", true, Some(object)),
        vec![("yes/k".to_string(), "null".to_string())]
    );
}

#[test]
fn read_message_reads_only_where_it_matters() {
    let on = processor(&["^skip"], &[], true);
    assert!(on.read_message("t", r#"{"a":1}"#).is_some());
    assert!(on.read_message("skip/t", r#"{"a":1}"#).is_none());
    assert!(on.read_message("t", "{broken").is_none());
    let off = processor(&[], &[], false);
    assert!(off.read_message("t", r#"{"a":1}"#).is_none());
}

#[test]
fn expand_json_accepts_white_space_before_an_object() {
    let p = processor(&[], &[], false);
    assert_eq!(p.expand_json("t", " {\"a\":1}"), vec![("t/a".to_string(), "1".to_string())]);
    assert_eq!(
        p.expand_json("t", " {\"a\":1}"),
        loxmqttrelay::flatten::flatten("t", " {\"a\":1}", true)
    );
    assert_eq!(p.expand_json("t", " [1]"), vec![("t".to_string(), " [1]".to_string())]);
}

#[test]
fn config_constructors_keep_what_they_are_given() {
    let c = config(&["f"], &["w"], true);
    assert_eq!(c.general.cache_size, 4);
    assert_eq!(c.general.base_topic, "relay");
    assert_eq!(c.topics.subscription_filters, texts(&["f"]));
    assert_eq!(c.topics.topic_whitelist, texts(&["w"]));
    assert!(c.processing.expand_json);
    assert!(!c.debug.publish_processed_topics);
}

#[test]
fn valid_filters_stay_when_they_do_not_compile_together() {
    let (patterns, width) = too_large_together();
    let mut configured = patterns.clone();
    configured.insert(1, "(".to_string());
    let mut p = MiniserverDataProcessor::new(GlobalConfig::new(
        GeneralConfig::new(4, "relay".to_string()),
        TopicsConfig::new(configured, Vec::new()),
        ProcessingConfig::new(true),
        DebugConfig::new(false),
    ));
    assert_eq!(p.get_subscription_filters(), patterns);
    assert!(p.get_do_not_forward_patterns().is_empty());
    let filtered = format!("1:{}", "a".repeat(width));
    assert!(p.process_data(&filtered, "on").is_empty());
    assert_eq!(triples(&p.process_data("free", "on")), expected(&[("free", "free", "1")]));

    p.update_subscription_filters(texts(&["^never$"]));
    p.update_do_not_forward(patterns.clone());
    assert_eq!(p.get_subscription_filters(), texts(&["^never$"]));
    assert_eq!(p.get_do_not_forward_patterns(), patterns);
    assert!(p.process_data(&filtered, "on").is_empty());
    assert_eq!(triples(&p.process_data("free", "on")), expected(&[("free", "free", "1")]));
}

#[test]
fn whitelist_topics_come_in_the_order_first_given() {
    let mut p = processor(&[], &["b", "a", "b", "c", "a"], true);
    assert_eq!(p.get_topic_whitelist(), texts(&["b", "a", "c"]));
    p.update_topic_whitelist(texts(&["z", "z", "y"]));
    assert_eq!(p.get_topic_whitelist(), texts(&["z", "y"]));
    p.update_subscription_filters(texts(&["x"]));
    p.update_do_not_forward(texts(&["x"]));
    assert_eq!(p.get_topic_whitelist(), texts(&["z", "y"]));
}
