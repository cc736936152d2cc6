//! Topic normalisation: a topic becomes a flat identifier by replacing its
//! reserved separators.

use vstd::prelude::*;

verus! {

/// Whether `c` is one of the two reserved separators, `/` and `%`.
pub open spec fn is_separator(c: char) -> bool {
    c == '/' || c == '%'
}

/// What stands for `c` in a normalised topic: `_` for a separator, `c` itself
/// for any other character.
pub open spec fn flat_char(c: char) -> char {
    if is_separator(c) {
        '_'
    } else {
        c
    }
}

/// The normalised form of `topic`: as long as `topic`, with `_` wherever
/// `topic` has `/` or `%`, and the character of `topic` everywhere else.
pub open spec fn normalized(topic: Seq<char>) -> Seq<char> {
    Seq::new(topic.len(), |i: int| flat_char(topic[i]))
}

/// Whether `topic` holds a separator.
pub open spec fn has_separator(topic: Seq<char>) -> bool {
    exists|i: int| 0 <= i < topic.len() && is_separator(#[trigger] topic[i])
}

/// Normalising twice gives what normalising once gives.
pub proof fn normalize_is_idempotent(topic: Seq<char>)
    ensures
        normalized(normalized(topic)) == normalized(topic),
{
    assert(normalized(normalized(topic)) =~= normalized(topic));
}

/// A topic that holds neither `/` nor `%` is its own normalised form.
pub proof fn normalize_keeps_plain_topics(topic: Seq<char>)
    requires
        !topic.contains('/'),
        !topic.contains('%'),
    ensures
        normalized(topic) == topic,
{
    assert forall|i: int| 0 <= i < topic.len() implies flat_char(topic[i]) == topic[i] by {
        assert(topic.contains(topic[i]));
    }
    assert(normalized(topic) =~= topic);
}

/// A normalised topic holds no separator, whatever it was made from.
pub proof fn normalized_is_flat(topic: Seq<char>)
    ensures
        normalized(topic).len() == topic.len(),
        !has_separator(normalized(topic)),
        !normalized(topic).contains('/'),
        !normalized(topic).contains('%'),
{
}

/// Whether `c` is `/` or `%`.
pub fn separator(c: char) -> (yes: bool)
    ensures
        yes == is_separator(c),
{
    c == '/' || c == '%'
}

/// Normalises `topic`. A topic without separators is copied as it is; any
/// other is rebuilt character by character.
pub fn normalize(topic: &str) -> (flat: String)
    ensures
        flat@ == normalized(topic@),
{
    let mut found: bool = false;
    for c in it: topic.chars()
        invariant
            it.seq() == topic@,
            found == has_separator(it.seq().take(it.index() as int)),
    {
        proof {
            let before = topic@.take(it.index() as int);
            let after = topic@.take(it.index() + 1);
            assert(after == before.push(c));
            if has_separator(before) {
                let j = choose|j: int| 0 <= j < before.len() && is_separator(#[trigger] before[j]);
                assert(is_separator(after[j]));
            }
            if is_separator(c) {
                assert(is_separator(after[after.len() - 1]));
            }
            if has_separator(after) && !is_separator(c) {
                let j = choose|j: int| 0 <= j < after.len() && is_separator(#[trigger] after[j]);
                assert(is_separator(before[j]));
            }
        }
        if separator(c) {
            found = true;
        }
    }
    assert(topic@.take(topic@.len() as int) == topic@);
    if !found {
        assert(normalized(topic@) =~= topic@);
        return topic.to_owned();
    }
    let mut flat = String::new();
    for c in it: topic.chars()
        invariant
            it.seq() == topic@,
            flat@ == normalized(it.seq().take(it.index() as int)),
    {
        proof {
            let before = topic@.take(it.index() as int);
            let after = topic@.take(it.index() + 1);
            assert(after == before.push(c));
            assert(normalized(after) =~= normalized(before).push(flat_char(c)));
        }
        if separator(c) {
            flat.push('_');
        } else {
            flat.push(c);
        }
    }
    flat
}

} // verus!
