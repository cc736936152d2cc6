use loxmqttrelay::boolean::classify;

#[test]
fn boolean_fixed_points() {
    assert_eq!(classify("1"), "1");
    assert_eq!(classify("0"), "0");
    assert_eq!(classify(""), "");
}

#[test]
fn vocabulary_coverage() {
    assert_eq!(classify("YES"), "1");
    assert_eq!(classify("Disabled"), "0");
    assert_eq!(classify("maybe"), "maybe");
}

#[test]
fn every_word_for_true_gives_one() {
    for word in
        ["true", "yes", "on", "enabled", "enable", "1", "check", "checked", "select", "selected"]
    {
        assert_eq!(classify(word), "1", "{}", word);
        assert_eq!(classify(&word.to_uppercase()), "1", "{}", word);
    }
}

#[test]
fn every_word_for_false_gives_zero() {
    for word in ["false", "no", "off", "disabled", "disable", "0"] {
        assert_eq!(classify(word), "0", "{}", word);
        assert_eq!(classify(&word.to_uppercase()), "0", "{}", word);
    }
}

#[test]
fn case_of_letters_is_ignored() {
    assert_eq!(classify("TrUe"), "1");
    assert_eq!(classify("oFF"), "0");
    assert_eq!(classify("SeLeCtEd"), "1");
}

#[test]
fn white_space_around_a_word_is_ignored() {
    assert_eq!(classify("  yes  "), "1");
    assert_eq!(classify("\tno\n"), "0");
    assert_eq!(classify(" 1"), "1");
    assert_eq!(classify("0\r\n"), "0");
    assert_eq!(classify("\u{a0}on\u{2003}"), "1");
}

#[test]
fn unmatched_value_is_returned_untouched() {
    assert_eq!(classify("  Maybe  "), "  Maybe  ");
    assert_eq!(classify("21.5"), "21.5");
    assert_eq!(classify("tru"), "tru");
    assert_eq!(classify("truee"), "truee");
    assert_eq!(classify("y e s"), "y e s");
    assert_eq!(classify("   "), "   ");
    assert_eq!(classify("10"), "10");
    assert_eq!(classify("ÖN"), "ÖN");
}

#[test]
fn classifying_twice_changes_nothing_more() {
    for value in ["YES", "Disabled", "maybe", "", " on ", "  x  ", "1", "0"] {
        let once = classify(value);
        assert_eq!(classify(&once), once);
    }
}
