use loxmqttrelay::whitelist::TopicWhitelist;

fn texts(items: &[&str]) -> Vec<String> {
    items.iter().map(|s| s.to_string()).collect()
}

#[test]
fn empty_whitelist_is_switched_off() {
    let whitelist = TopicWhitelist::new(Vec::new());
    assert!(whitelist.is_empty());
    assert!(!whitelist.contains("a"));
    assert_eq!(whitelist.topics(), Vec::<String>::new());
}

#[test]
fn listed_topics_are_contained() {
    let whitelist = TopicWhitelist::new(texts(&["sensors_a", "room_temp"]));
    assert!(!whitelist.is_empty());
    assert!(whitelist.contains("sensors_a"));
    assert!(whitelist.contains("room_temp"));
    assert!(!whitelist.contains("sensors/a"));
    assert!(!whitelist.contains("sensors_b_c"));
    assert!(!whitelist.contains(""));
}

#[test]
fn a_topic_given_twice_is_listed_once() {
    let whitelist = TopicWhitelist::new(texts(&["b", "a", "b", "c", "a"]));
    assert_eq!(whitelist.topics(), texts(&["b", "a", "c"]));
}

#[test]
fn the_empty_topic_can_be_listed() {
    let whitelist = TopicWhitelist::new(texts(&[""]));
    assert!(!whitelist.is_empty());
    assert!(whitelist.contains(""));
}
