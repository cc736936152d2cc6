//! Value normalisation: a value that reads as a boolean becomes `1` or `0`,
//! any other value stays as it is.

use crate::text::{
    ascii_lower, chars_of, is_space, range_is_word, same_ignoring_case, trim_bounds, trimmed,
    without_leading_spaces, without_trailing_spaces,
};
use vstd::prelude::*;

verus! {

/// Whether `word` is one of the words for true, whatever the case of its
/// letters: true, yes, on, enabled, enable, 1, check, checked, select,
/// selected.
pub open spec fn is_true_word(word: Seq<char>) -> bool {
    ||| same_ignoring_case(word, "1"@)
    ||| same_ignoring_case(word, "true"@)
    ||| same_ignoring_case(word, "yes"@)
    ||| same_ignoring_case(word, "on"@)
    ||| same_ignoring_case(word, "enabled"@)
    ||| same_ignoring_case(word, "enable"@)
    ||| same_ignoring_case(word, "check"@)
    ||| same_ignoring_case(word, "checked"@)
    ||| same_ignoring_case(word, "select"@)
    ||| same_ignoring_case(word, "selected"@)
}

/// Whether `word` is one of the words for false, whatever the case of its
/// letters: false, no, off, disabled, disable, 0.
pub open spec fn is_false_word(word: Seq<char>) -> bool {
    ||| same_ignoring_case(word, "0"@)
    ||| same_ignoring_case(word, "false"@)
    ||| same_ignoring_case(word, "no"@)
    ||| same_ignoring_case(word, "off"@)
    ||| same_ignoring_case(word, "disabled"@)
    ||| same_ignoring_case(word, "disable"@)
}

/// The normalised form of `value`: `1` where `value`, without the white
/// space around it, is a word for true; `0` where it is a word for false;
/// and `value` itself, white space and case untouched, where it is neither.
/// The empty value is neither.
pub open spec fn classified(value: Seq<char>) -> Seq<char> {
    if is_true_word(trimmed(value)) {
        "1"@
    } else if is_false_word(trimmed(value)) {
        "0"@
    } else {
        value
    }
}

/// A text without white space at either end is its own trimmed form.
pub proof fn trimmed_keeps_tight_text(text: Seq<char>)
    requires
        text.len() > 0,
        !is_space(text.first()),
        !is_space(text.last()),
    ensures
        trimmed(text) == text,
{
    assert(without_leading_spaces(text) == text);
    assert(without_trailing_spaces(text) == text);
}

/// No word is both a word for true and a word for false.
pub proof fn true_and_false_words_are_apart(word: Seq<char>)
    ensures
        !(is_true_word(word) && is_false_word(word)),
{
    reveal_strlit("1");
    reveal_strlit("true");
    reveal_strlit("yes");
    reveal_strlit("on");
    reveal_strlit("enabled");
    reveal_strlit("enable");
    reveal_strlit("check");
    reveal_strlit("checked");
    reveal_strlit("select");
    reveal_strlit("selected");
    reveal_strlit("0");
    reveal_strlit("false");
    reveal_strlit("no");
    reveal_strlit("off");
    reveal_strlit("disabled");
    reveal_strlit("disable");
    if is_true_word(word) && is_false_word(word) {
        // The words for false begin with 0, f, n, o or d; of the words for
        // true only "on" begins so, and no word for false is "on".
        let first = ascii_lower(word[0]);
        assert(first == 'o');
        assert(ascii_lower(word[1]) == 'n');
        assert(false);
    }
}

/// Normalising a value twice gives what normalising it once gives: `1` and
/// `0` are their own normalised forms, and a value that is no boolean word is
/// kept.
pub proof fn classify_is_idempotent(value: Seq<char>)
    ensures
        classified(classified(value)) == classified(value),
{
    reveal_strlit("1");
    reveal_strlit("0");
    if is_true_word(trimmed(value)) {
        trimmed_keeps_tight_text("1"@);
        assert(same_ignoring_case("1"@, "1"@));
    } else if is_false_word(trimmed(value)) {
        trimmed_keeps_tight_text("0"@);
        assert(same_ignoring_case("0"@, "0"@));
        true_and_false_words_are_apart("0"@);
    }
}

/// Whether `chars[from..to]` is a word for true.
pub fn range_is_true_word(chars: &Vec<char>, from: usize, to: usize) -> (yes: bool)
    requires
        from <= to <= chars.len(),
    ensures
        yes == is_true_word(chars@.subrange(from as int, to as int)),
{
    range_is_word(chars, from, to, "1")
        || range_is_word(chars, from, to, "true")
        || range_is_word(chars, from, to, "yes")
        || range_is_word(chars, from, to, "on")
        || range_is_word(chars, from, to, "enabled")
        || range_is_word(chars, from, to, "enable")
        || range_is_word(chars, from, to, "check")
        || range_is_word(chars, from, to, "checked")
        || range_is_word(chars, from, to, "select")
        || range_is_word(chars, from, to, "selected")
}

/// Whether `chars[from..to]` is a word for false.
pub fn range_is_false_word(chars: &Vec<char>, from: usize, to: usize) -> (yes: bool)
    requires
        from <= to <= chars.len(),
    ensures
        yes == is_false_word(chars@.subrange(from as int, to as int)),
{
    range_is_word(chars, from, to, "0")
        || range_is_word(chars, from, to, "false")
        || range_is_word(chars, from, to, "no")
        || range_is_word(chars, from, to, "off")
        || range_is_word(chars, from, to, "disabled")
        || range_is_word(chars, from, to, "disable")
}

/// Normalises `value`.
pub fn classify(value: &str) -> (out: String)
    ensures
        out@ == classified(value@),
{
    let chars = chars_of(value);
    let (from, to) = trim_bounds(&chars);
    if range_is_true_word(&chars, from, to) {
        "1".to_owned()
    } else if range_is_false_word(&chars, from, to) {
        "0".to_owned()
    } else {
        value.to_owned()
    }
}

} // verus!
