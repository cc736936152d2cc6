use loxmqttrelay::config::{
    DebugConfig, GeneralConfig, GlobalConfig, ProcessingConfig, TopicsConfig,
};
use loxmqttrelay::processor::MiniserverDataProcessor;

fn processor(base: &str, debug: bool) -> MiniserverDataProcessor {
    MiniserverDataProcessor::new(GlobalConfig::new(
        GeneralConfig::new(0, base.to_string()),
        TopicsConfig::new(Vec::new(), Vec::new()),
        ProcessingConfig::new(true),
        DebugConfig::new(debug),
    ))
}

#[test]
fn forwarded_report_names_topic_value_and_code() {
    let p = processor("relay", false);
    let (topic, payload) = p.publish_forwarded_topic("sensors/a%b", "21.5", 200);
    assert_eq!(topic, "relay/forwardedtopics/sensors_a_b");
    assert_eq!(payload, r#"{"http_code":200,"value":"21.5"}"#);
}

#[test]
fn forwarded_report_is_what_serde_json_writes() {
    let p = processor("relay", false);
    for (value, code) in [("plain", 200), ("with \"quotes\"", 404), ("line\nbreak\t\\", -1), ("", 0), ("ünï 😀", 500)] {
        let (_, payload) = p.publish_forwarded_topic("t", value, code);
        let mut map = serde_json::Map::new();
        map.insert("value".to_string(), serde_json::Value::from(value));
        map.insert("http_code".to_string(), serde_json::Value::from(code));
        assert_eq!(payload, serde_json::Value::Object(map).to_string());
        let read: serde_json::Value = serde_json::from_str(&payload).unwrap();
        assert_eq!(read["value"], serde_json::Value::from(value));
        assert_eq!(read["http_code"], serde_json::Value::from(code));
    }
}

#[test]
fn forwarded_report_escapes_the_value() {
    let p = processor("relay", false);
    let (_, payload) = p.publish_forwarded_topic("t", "a\"b", 1);
    assert_eq!(payload, "{\"http_code\":1,\"value\":\"a\\\"b\"}");
}

#[test]
fn report_topic_joins_base_kind_and_normalized_topic() {
    let p = processor("base/topic", false);
    assert_eq!(p.report_topic_for("kind", "a/b"), "base/topic/kind/a_b");
    assert_eq!(p.report_topic_for("", ""), "base/topic//");
}

#[test]
fn processed_reports_come_only_when_asked_for() {
    let candidates = vec![
        ("dev/a".to_string(), "1".to_string()),
        ("dev/b%c".to_string(), "on".to_string()),
    ];
    assert_eq!(processor("relay", false).processed_topic_reports(&candidates), Vec::new());
    assert_eq!(
        processor("relay", true).processed_topic_reports(&candidates),
        vec![
            ("relay/processedtopics/dev_a".to_string(), "1".to_string()),
            ("relay/processedtopics/dev_b_c".to_string(), "on".to_string()),
        ]
    );
    assert_eq!(processor("relay", true).processed_topic_reports(&Vec::new()), Vec::new());
}

#[test]
fn forwarded_report_keeps_its_keys_in_order() {
    let p = processor("relay", false);
    let (_, payload) = p.publish_forwarded_topic("t", "value", i32::MIN);
    assert_eq!(payload, r#"{"http_code":-2147483648,"value":"value"}"#);
    let (_, payload) = p.publish_forwarded_topic("t", "http_code", i32::MAX);
    assert_eq!(payload, r#"{"http_code":2147483647,"value":"http_code"}"#);
}

#[test]
fn reports_and_forwards_of_one_message() {
    let mut p = MiniserverDataProcessor::new(GlobalConfig::new(
        GeneralConfig::new(0, "relay".to_string()),
        TopicsConfig::new(vec!["/hidden$".to_string()], Vec::new()),
        ProcessingConfig::new(true),
        DebugConfig::new(true),
    ));
    let (reports, forwards) = p.process_data_with_reports("dev", r#"{"a":"On","hidden":1}"#);
    assert_eq!(
        reports,
        vec![
            ("relay/processedtopics/dev_a".to_string(), "On".to_string()),
            ("relay/processedtopics/dev_hidden".to_string(), "1".to_string()),
        ]
    );
    assert_eq!(forwards.len(), 1);
    assert_eq!(forwards[0].topic, "dev/a");
    assert_eq!(forwards[0].normalized_topic, "dev_a");
    assert_eq!(forwards[0].value, "1");

    let (reports, forwards) = p.process_data_with_reports("x/hidden", "1");
    assert!(reports.is_empty());
    assert!(forwards.is_empty());

    p.global_config.debug.publish_processed_topics = false;
    let (reports, forwards) = p.process_data_with_reports("dev", "plain");
    assert!(reports.is_empty());
    assert_eq!(forwards.len(), 1);
    assert_eq!(forwards[0].value, "plain");
}
