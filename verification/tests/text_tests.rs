use loxmqttrelay::text::{
    chars_of, clone_texts, decimal_of_i64, decimal_of_u64, digit, has_char, range_is_word, space, starts_with,
    to_ascii_lower, trim_bounds,
};

#[test]
fn chars_of_gives_the_characters_in_order() {
    assert_eq!(chars_of("héllo"), vec!['h', 'é', 'l', 'l', 'o']);
    assert_eq!(chars_of("😀a"), vec!['😀', 'a']);
    assert_eq!(chars_of(""), Vec::<char>::new());
}

#[test]
fn starts_with_tests_the_prefix() {
    assert!(starts_with("relay/config/get", "relay/"));
    assert!(starts_with("relay", "relay"));
    assert!(starts_with("anything", ""));
    assert!(!starts_with("rela", "relay"));
    assert!(!starts_with("other/relay", "relay"));
}

#[test]
fn has_char_finds_a_character() {
    assert!(has_char("3.5", '.'));
    assert!(!has_char("35", '.'));
    assert!(!has_char("", '.'));
}

#[test]
fn ascii_lower_maps_only_ascii_capitals() {
    assert_eq!(to_ascii_lower('A'), 'a');
    assert_eq!(to_ascii_lower('Z'), 'z');
    assert_eq!(to_ascii_lower('m'), 'm');
    assert_eq!(to_ascii_lower('1'), '1');
    assert_eq!(to_ascii_lower('@'), '@');
    assert_eq!(to_ascii_lower('['), '[');
    assert_eq!(to_ascii_lower('Ö'), 'Ö');
}

#[test]
fn space_agrees_with_the_standard_library() {
    for code in 0u32..0x3100 {
        if let Some(c) = char::from_u32(code) {
            assert_eq!(space(c), c.is_whitespace(), "U+{:04X}", code);
        }
    }
    assert!(!space('\u{200b}'));
    assert!(!space('\u{feff}'));
}

#[test]
fn trim_bounds_agree_with_the_standard_library() {
    for text in ["", " ", "  a  ", "a", "\t a b \n", "\u{3000}x\u{a0}", "   ", "a  ", "  a"] {
        let chars = chars_of(text);
        let (from, to) = trim_bounds(&chars);
        assert!(from <= to && to <= chars.len());
        let kept: String = chars[from..to].iter().collect();
        assert_eq!(kept, text.trim(), "{:?}", text);
    }
}

#[test]
fn range_is_word_compares_without_case() {
    let chars = chars_of("  YeS ");
    assert!(range_is_word(&chars, 2, 5, "yes"));
    assert!(!range_is_word(&chars, 2, 5, "yes!"));
    assert!(!range_is_word(&chars, 2, 5, "ye"));
    assert!(!range_is_word(&chars, 2, 5, "no!"));
    assert!(!range_is_word(&chars, 1, 5, "yes"));
    assert!(range_is_word(&chars, 3, 3, ""));
}

#[test]
fn digits_are_the_decimal_digits() {
    assert_eq!(digit(0), '0');
    assert_eq!(digit(5), '5');
    assert_eq!(digit(9), '9');
}

#[test]
fn decimal_of_unsigned_integers() {
    assert_eq!(decimal_of_u64(0), "0");
    assert_eq!(decimal_of_u64(7), "7");
    assert_eq!(decimal_of_u64(10), "10");
    assert_eq!(decimal_of_u64(1234567890), "1234567890");
    assert_eq!(decimal_of_u64(u64::MAX), "18446744073709551615");
}

#[test]
fn decimal_of_signed_integers() {
    assert_eq!(decimal_of_i64(0), "0");
    assert_eq!(decimal_of_i64(42), "42");
    assert_eq!(decimal_of_i64(-1), "-1");
    assert_eq!(decimal_of_i64(-1200), "-1200");
    assert_eq!(decimal_of_i64(i64::MAX), "9223372036854775807");
    assert_eq!(decimal_of_i64(i64::MIN), "-9223372036854775808");
}

#[test]
fn decimal_agrees_with_the_standard_library() {
    for n in [0u64, 1, 9, 10, 11, 99, 100, 101, 999, 1000, 65535, 4294967296] {
        assert_eq!(decimal_of_u64(n), n.to_string());
        assert_eq!(decimal_of_i64(-(n as i64)), (-(n as i64)).to_string());
    }
}

#[test]
fn clone_texts_copies() {
    let given = vec!["a".to_string(), String::new(), "b".to_string()];
    assert_eq!(clone_texts(&given), given);
    assert_eq!(clone_texts(&Vec::new()), Vec::<String>::new());
}
