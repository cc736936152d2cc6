use loxmqttrelay::normalize::{normalize, separator};

#[test]
fn separators_become_underscores() {
    assert_eq!(normalize("sensors/a"), "sensors_a");
    assert_eq!(normalize("a%b/c"), "a_b_c");
    assert_eq!(normalize("/"), "_");
    assert_eq!(normalize("%%"), "__");
    assert_eq!(normalize("//a//"), "__a__");
}

#[test]
fn plain_topic_is_kept() {
    assert_eq!(normalize("sensors"), "sensors");
    assert_eq!(normalize(""), "");
    assert_eq!(normalize("already_flat"), "already_flat");
}

#[test]
fn other_characters_are_kept_verbatim() {
    assert_eq!(normalize("küche/tür"), "küche_tür");
    assert_eq!(normalize("a b\\c/d"), "a b\\c_d");
    assert_eq!(normalize("温度/室内%1"), "温度_室内_1");
}

#[test]
fn normalizing_twice_changes_nothing_more() {
    for topic in ["sensors/a", "a%b/c", "plain", "", "küche/tür", "x/%/y"] {
        let once = normalize(topic);
        assert_eq!(normalize(&once), once);
        assert!(!once.contains('/'));
        assert!(!once.contains('%'));
    }
}

#[test]
fn topic_without_separators_is_its_own_normal_form() {
    for topic in ["plain", "with space", "under_score", "ünïcode", ""] {
        assert_eq!(normalize(topic), topic);
    }
}

#[test]
fn only_slash_and_percent_are_separators() {
    assert!(separator('/'));
    assert!(separator('%'));
    assert!(!separator('_'));
    assert!(!separator('\\'));
    assert!(!separator('a'));
}
