use loxmqttrelay::config::{
    DebugConfig, GeneralConfig, GlobalConfig, MqttTopics, ProcessingConfig, TopicsConfig,
};
use loxmqttrelay::control::{
    control_order, handle_mqtt_message, needs_sync_setting, route_message, ConfigUpdateMode,
    MqttAction,
};
use loxmqttrelay::payload::{decode_payload, hex_digit_of, placeholder_of};
use loxmqttrelay::processor::MiniserverDataProcessor;

fn topics() -> MqttTopics {
    MqttTopics {
        start_ui_topic: "relay/ui/start".to_string(),
        stop_ui_topic: "relay/ui/stop".to_string(),
        miniserver_startup_topic: "relay/miniserver/startup".to_string(),
        config_get_topic: "relay/config/get".to_string(),
        config_response_topic: "relay/config/response".to_string(),
        config_set_topic: "relay/config/set".to_string(),
        config_add_topic: "relay/config/add".to_string(),
        config_remove_topic: "relay/config/remove".to_string(),
        config_update_topic: "relay/config/update".to_string(),
        config_restart_topic: "relay/config/restart".to_string(),
    }
}

fn processor(base: &str) -> MiniserverDataProcessor {
    MiniserverDataProcessor::new(GlobalConfig::new(
        GeneralConfig::new(0, base.to_string()),
        TopicsConfig::new(Vec::new(), Vec::new()),
        ProcessingConfig::new(true),
        DebugConfig::new(false),
    ))
}

fn route(topic: &str, message: &str, sync: bool) -> MqttAction {
    route_message(&processor("relay"), &topics(), sync, topic.to_string(), message.to_string())
}

#[test]
fn ui_orders_are_recognised() {
    assert!(matches!(route("relay/ui/start", "", false), MqttAction::StartUi));
    assert!(matches!(route("relay/ui/stop", "x", true), MqttAction::StopUi));
}

#[test]
fn miniserver_start_asks_for_sync_only_when_enabled() {
    assert!(matches!(route("relay/miniserver/startup", "", true), MqttAction::ScheduleMiniserverSync));
    assert!(matches!(route("relay/miniserver/startup", "", false), MqttAction::Nothing));
}

#[test]
fn configuration_request_names_the_response_topic() {
    match route("relay/config/get", "", false) {
        MqttAction::PublishConfig { response_topic } => {
            assert_eq!(response_topic, "relay/config/response")
        }
        _ => panic!("not a request for the configuration"),
    }
}

#[test]
fn configuration_updates_carry_mode_and_payload() {
    for (topic, mode) in [
        ("relay/config/set", ConfigUpdateMode::SetFields),
        ("relay/config/add", ConfigUpdateMode::AddFields),
        ("relay/config/remove", ConfigUpdateMode::RemoveFields),
    ] {
        match route(topic, r#"{"k":1}"#, false) {
            MqttAction::UpdateConfig { mode: got, payload } => {
                assert_eq!(got, mode);
                assert_eq!(payload, r#"{"k":1}"#);
            }
            _ => panic!("not an update of the configuration"),
        }
    }
}

#[test]
fn update_modes_have_their_names() {
    assert_eq!(ConfigUpdateMode::SetFields.as_str(), "set");
    assert_eq!(ConfigUpdateMode::AddFields.as_str(), "add");
    assert_eq!(ConfigUpdateMode::RemoveFields.as_str(), "remove");
}

#[test]
fn update_and_restart_topics_restart() {
    assert!(matches!(route("relay/config/update", "", false), MqttAction::Restart));
    assert!(matches!(route("relay/config/restart", "", false), MqttAction::Restart));
}

#[test]
fn other_topics_under_the_base_topic_do_nothing() {
    assert!(matches!(route("relay/unknown", r#"{"a":1}"#, true), MqttAction::Nothing));
    assert!(matches!(route("relay", "1", true), MqttAction::Nothing));
    assert!(matches!(route("relayed/sensor", "1", true), MqttAction::Nothing));
}

#[test]
fn topics_outside_the_base_topic_are_processed() {
    match route("sensors", r#"{"a":1,"b":{"c":2}}"#, false) {
        MqttAction::Forward(out) => {
            assert_eq!(out.len(), 2);
            assert_eq!(out[0].topic, "sensors/a");
            assert_eq!(out[0].normalized_topic, "sensors_a");
            assert_eq!(out[0].value, "1");
            assert_eq!(out[1].topic, "sensors/b/c");
            assert_eq!(out[1].normalized_topic, "sensors_b_c");
            assert_eq!(out[1].value, "2");
        }
        _ => panic!("not forwarded"),
    }
}

#[test]
fn control_topics_outside_the_base_topic_are_processed() {
    let mut t = topics();
    t.start_ui_topic = "elsewhere/start".to_string();
    let action = route_message(
        &processor("relay"),
        &t,
        false,
        "elsewhere/start".to_string(),
        "1".to_string(),
    );
    match action {
        MqttAction::Forward(out) => assert_eq!(out.len(), 1),
        _ => panic!("not forwarded"),
    }
}

#[test]
fn an_empty_base_topic_intercepts_every_message() {
    let action = route_message(
        &processor(""),
        &topics(),
        false,
        "sensors".to_string(),
        "1".to_string(),
    );
    assert!(matches!(action, MqttAction::Nothing));
}

#[test]
fn earlier_control_topics_win_over_later_ones() {
    let mut t = topics();
    t.stop_ui_topic = t.start_ui_topic.clone();
    t.config_add_topic = t.config_set_topic.clone();
    let start = t.start_ui_topic.clone();
    assert!(matches!(control_order(&t, false, &start, String::new()), MqttAction::StartUi));
    let set = t.config_set_topic.clone();
    match control_order(&t, false, &set, "p".to_string()) {
        MqttAction::UpdateConfig { mode, .. } => assert_eq!(mode, ConfigUpdateMode::SetFields),
        _ => panic!("not an update of the configuration"),
    }
}

#[test]
fn raw_payload_that_is_text_is_routed_as_text() {
    let action = handle_mqtt_message(
        &processor("relay"),
        &topics(),
        false,
        "küche/licht".to_string(),
        "Ein".as_bytes().to_vec(),
    );
    match action {
        MqttAction::Forward(out) => {
            assert_eq!(out.len(), 1);
            assert_eq!(out[0].normalized_topic, "küche_licht");
            assert_eq!(out[0].value, "Ein");
        }
        _ => panic!("not forwarded"),
    }
}

#[test]
fn raw_payload_that_is_no_text_is_routed_as_its_placeholder() {
    let action = handle_mqtt_message(
        &processor("relay"),
        &topics(),
        false,
        "cam/frame".to_string(),
        vec![0xff, 0x00, 0x7b],
    );
    match action {
        MqttAction::Forward(out) => {
            assert_eq!(out.len(), 1);
            assert_eq!(out[0].value, "hex:ff007b");
        }
        _ => panic!("not forwarded"),
    }
}

#[test]
fn decode_payload_keeps_valid_text() {
    assert_eq!(decode_payload(&Vec::new()), "");
    assert_eq!(decode_payload(&"plain".as_bytes().to_vec()), "plain");
    assert_eq!(decode_payload(&"grüß 温度 😀".as_bytes().to_vec()), "grüß 温度 😀");
    assert_eq!(decode_payload(&vec![0x00]), "\u{0}");
}

#[test]
fn decode_payload_replaces_invalid_text() {
    assert_eq!(decode_payload(&vec![0x80]), "hex:80");
    assert_eq!(decode_payload(&vec![0x61, 0xc3]), "hex:61c3");
    assert_eq!(decode_payload(&vec![0xc0, 0xaf]), "hex:c0af");
    assert_eq!(decode_payload(&vec![0xed, 0xa0, 0x80]), "hex:eda080");
    assert_eq!(decode_payload(&vec![0xf4, 0x90, 0x80, 0x80]), "hex:f4908080");
}

#[test]
fn placeholder_has_two_digits_a_byte() {
    assert_eq!(placeholder_of(&Vec::new()), "hex:");
    assert_eq!(placeholder_of(&vec![0, 9, 10, 15, 16, 255]), "hex:00090a0f10ff");
    assert_eq!(placeholder_of(&"ab".as_bytes().to_vec()), "hex:6162");
}

#[test]
fn hex_digits() {
    let digits: Vec<char> = (0u8..16).map(hex_digit_of).collect();
    assert_eq!(digits.iter().collect::<String>(), "0123456789abcdef");
}

#[test]
fn sync_setting_matters_only_for_the_startup_topic_under_the_base_topic() {
    let p = processor("relay");
    let t = topics();
    assert!(needs_sync_setting(&p, &t, &"relay/miniserver/startup".to_string()));
    assert!(!needs_sync_setting(&p, &t, &"relay/ui/start".to_string()));
    assert!(!needs_sync_setting(&p, &t, &"sensors".to_string()));
    let mut outside = topics();
    outside.miniserver_startup_topic = "elsewhere/startup".to_string();
    assert!(!needs_sync_setting(&p, &outside, &"elsewhere/startup".to_string()));
}
