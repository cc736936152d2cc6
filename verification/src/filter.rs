//! Filter sets: a list of regular expressions, compiled into one matcher
//! that matches a text when at least one of the expressions does.
//!
//! The expressions are those of the `regex` crate. Which patterns it
//! accepts and which texts a pattern matches is not stated here: both have
//! names, [`pattern_accepted`] and [`pattern_matches`], and the contracts
//! of this module say exactly how a filter set depends on them.
//!
//! A filter set holds every pattern that is accepted by itself. Where the
//! crate compiles them into one set, the set does the matching; where it
//! refuses them together, as it does when together they are too large,
//! each pattern is compiled by itself and they are asked one after another.

use crate::text::clone_texts;
use regex::{Regex, RegexSet};
use vstd::prelude::*;

verus! {

/// The set of compiled expressions of the `regex` crate, opaque to the
/// proofs.
#[verifier::external_type_specification]
#[verifier::external_body]
pub struct ExRegexSet(RegexSet);

/// One compiled expression of the `regex` crate, opaque to the proofs.
#[verifier::external_type_specification]
#[verifier::external_body]
pub struct ExRegex(Regex);

/// Whether `Regex::new` accepts `pattern`, that is, compiles it within its
/// default limits.
pub uninterp spec fn pattern_accepted(pattern: Seq<char>) -> bool;

/// Whether `RegexSet::new` accepts the patterns together.
pub uninterp spec fn set_accepted(patterns: Seq<Seq<char>>) -> bool;

/// Whether the expression that `pattern` compiles to matches somewhere in
/// `text`.
pub uninterp spec fn pattern_matches(pattern: Seq<char>, text: Seq<char>) -> bool;

/// The patterns that a compiled set was made from, in their order.
pub uninterp spec fn set_patterns(set: RegexSet) -> Seq<Seq<char>>;

/// The pattern that a compiled expression was made from.
pub uninterp spec fn regex_source(regex: Regex) -> Seq<char>;

/// The patterns that compiled expressions were made from, one for each.
pub open spec fn sources(singles: Seq<Regex>) -> Seq<Seq<char>> {
    Seq::new(singles.len(), |i: int| regex_source(singles[i]))
}

/// Whether at least one of `patterns` matches `text`.
pub open spec fn any_matches(patterns: Seq<Seq<char>>, text: Seq<char>) -> bool {
    exists|i: int| 0 <= i < patterns.len() && pattern_matches(#[trigger] patterns[i], text)
}

/// The items of `items` whose flag in `keep` is set, in their order.
pub open spec fn selected(items: Seq<Seq<char>>, keep: Seq<bool>) -> Seq<Seq<char>>
    decreases items.len(),
{
    if items.len() == 0 || keep.len() != items.len() {
        Seq::empty()
    } else if keep.last() {
        selected(items.drop_last(), keep.drop_last()).push(items.last())
    } else {
        selected(items.drop_last(), keep.drop_last())
    }
}

/// For each pattern, whether it is accepted.
pub open spec fn verdicts(patterns: Seq<Seq<char>>) -> Seq<bool> {
    Seq::new(patterns.len(), |i: int| pattern_accepted(patterns[i]))
}

/// The patterns of `patterns` that are accepted one by one, in their order.
pub open spec fn accepted_patterns(patterns: Seq<Seq<char>>) -> Seq<Seq<char>> {
    selected(patterns, verdicts(patterns))
}

/// Trusted: `Regex::new` compiles the pattern into an expression, or
/// fails; the expression keeps the pattern it was made from.
#[verifier::external_body]
fn regex_of(pattern: &str) -> (regex: Option<Regex>)
    ensures
        regex is Some == pattern_accepted(pattern@),
        regex is Some ==> regex_source(regex->0) == pattern@,
{
    Regex::new(pattern).ok()
}

/// Trusted: `Regex::is_match` is true if and only if the expression
/// matches somewhere in the text.
#[verifier::external_body]
fn regex_matches(regex: &Regex, text: &str) -> (hit: bool)
    ensures
        hit == pattern_matches(regex_source(*regex), text@),
{
    regex.is_match(text)
}

/// Trusted: `RegexSet::new` compiles the patterns into one set, or fails;
/// the set keeps the patterns it was made from.
#[verifier::external_body]
fn regex_set_of(patterns: &Vec<String>) -> (set: Option<RegexSet>)
    ensures
        set is Some == set_accepted(patterns.deep_view()),
        set is Some ==> set_patterns(set->0) == patterns.deep_view(),
{
    RegexSet::new(patterns).ok()
}

/// Trusted: `RegexSet::is_match` is true if and only if one of the
/// expressions of the set matches the text.
#[verifier::external_body]
fn regex_set_matches(set: &RegexSet, text: &str) -> (hit: bool)
    ensures
        hit == (exists|i: int|
            0 <= i < set_patterns(*set).len() && pattern_matches(
                #[trigger] set_patterns(*set)[i],
                text@,
            )),
{
    set.is_match(text)
}

/// For each pattern, whether it is accepted.
pub fn judge(patterns: &Vec<String>) -> (flags: Vec<bool>)
    ensures
        flags@ == verdicts(patterns.deep_view()),
{
    let mut flags: Vec<bool> = Vec::new();
    let mut i: usize = 0;
    while i < patterns.len()
        invariant
            i <= patterns.len(),
            flags@ == verdicts(patterns.deep_view()).take(i as int),
        decreases patterns.len() - i,
    {
        let ok = regex_of(patterns[i].as_str()).is_some();
        proof {
            let all = verdicts(patterns.deep_view());
            assert(patterns.deep_view()[i as int] == patterns[i as int]@);
            assert(all.take(i + 1) =~= all.take(i as int).push(ok));
        }
        flags.push(ok);
        i = i + 1;
    }
    assert(verdicts(patterns.deep_view()).take(patterns.len() as int) =~= verdicts(
        patterns.deep_view(),
    ));
    flags
}

/// The items whose flag is set, in their order. Where there are not as many
/// flags as items, none is selected.
pub fn select(items: Vec<String>, keep: &Vec<bool>) -> (kept: Vec<String>)
    ensures
        kept.deep_view() == selected(items.deep_view(), keep@),
{
    let mut kept: Vec<String> = Vec::new();
    if items.len() != keep.len() {
        assert(kept.deep_view() =~= Seq::empty());
        if items.len() == 0 {
            assert(selected(items.deep_view(), keep@) =~= Seq::empty());
        }
        return kept;
    }
    let ghost all = items.deep_view();
    assert(kept.deep_view() =~= selected(all.take(0), keep@.take(0)));
    let mut i: usize = 0;
    for item in it: items
        invariant
            i == it.index(),
            it.seq().len() == keep.len(),
            all.len() == keep.len(),
            forall|k: int| 0 <= k < all.len() ==> all[k] == (#[trigger] it.seq()[k])@,
            kept.deep_view() == selected(all.take(i as int), keep@.take(i as int)),
    {
        proof {
            let now = all.take(i + 1);
            let flags = keep@.take(i + 1);
            assert(now.drop_last() =~= all.take(i as int));
            assert(flags.drop_last() =~= keep@.take(i as int));
            assert(now.last() == item@);
            assert(flags.last() == keep@[i as int]);
        }
        if keep[i] {
            let ghost before = kept.deep_view();
            kept.push(item);
            assert(kept.deep_view() =~= before.push(item@));
        }
        i = i + 1;
    }
    assert(all.take(all.len() as int) =~= all);
    assert(keep@.take(keep.len() as int) =~= keep@);
    kept
}

/// Compiles each of `patterns` by itself.
fn compile_each(patterns: &Vec<String>) -> (singles: Vec<Regex>)
    requires
        forall|i: int| 0 <= i < patterns.len() ==> pattern_accepted(#[trigger] patterns[i]@),
    ensures
        sources(singles@) == patterns.deep_view(),
{
    let mut singles: Vec<Regex> = Vec::new();
    let mut i: usize = 0;
    assert(sources(singles@) =~= patterns.deep_view().take(0));
    while i < patterns.len()
        invariant
            i <= patterns.len(),
            forall|k: int| 0 <= k < patterns.len() ==> pattern_accepted(#[trigger] patterns[k]@),
            sources(singles@) == patterns.deep_view().take(i as int),
        decreases patterns.len() - i,
    {
        let ghost before = singles@;
        // An accepted pattern compiles.
        if let Some(regex) = regex_of(patterns[i].as_str()) {
            singles.push(regex);
        }
        proof {
            assert(sources(singles@) =~= sources(before).push(patterns[i as int]@));
            assert(patterns.deep_view().take(i + 1) =~= patterns.deep_view().take(i as int).push(
                patterns[i as int]@,
            ));
        }
        i = i + 1;
    }
    assert(patterns.deep_view().take(patterns.len() as int) =~= patterns.deep_view());
    singles
}

/// Whether at least one of the expressions matches `text`.
fn any_single_matches(singles: &Vec<Regex>, text: &str) -> (hit: bool)
    ensures
        hit == any_matches(sources(singles@), text@),
{
    let mut i: usize = 0;
    while i < singles.len()
        invariant
            i <= singles.len(),
            forall|k: int| 0 <= k < i ==> !pattern_matches(#[trigger] sources(singles@)[k], text@),
        decreases singles.len() - i,
    {
        if regex_matches(&singles[i], text) {
            assert(pattern_matches(sources(singles@)[i as int], text@));
            return true;
        }
        i = i + 1;
    }
    false
}

/// A compiled list of patterns. It matches a text when at least one of its
/// patterns does; without patterns it matches nothing.
pub struct FilterSet {
    compiled: Option<RegexSet>,
    singles: Vec<Regex>,
    raw: Vec<String>,
}

impl View for FilterSet {
    type V = Seq<Seq<char>>;

    /// The patterns of the set, as they were given, in their order.
    closed spec fn view(&self) -> Seq<Seq<char>> {
        self.raw.deep_view()
    }
}

impl FilterSet {
    /// What does the matching was made from the patterns that the filter
    /// set names: the compiled set where there is one, and else the
    /// expressions that were compiled one by one.
    #[verifier::type_invariant]
    spec fn wf(self) -> bool {
        match self.compiled {
            Some(set) => set_patterns(set) == self.raw.deep_view(),
            None => sources(self.singles@) == self.raw.deep_view(),
        }
    }

    /// The filter set without patterns.
    pub fn empty() -> (set: FilterSet)
        ensures
            set@ == Seq::<Seq<char>>::empty(),
    {
        let raw: Vec<String> = Vec::new();
        let singles: Vec<Regex> = Vec::new();
        assert(raw.deep_view() =~= Seq::empty());
        assert(sources(singles@) =~= Seq::empty());
        FilterSet { compiled: None, singles, raw }
    }

    /// Compiles `patterns`. Each pattern is judged by itself, and one that
    /// is not accepted is left out without harm to the others: the filter
    /// set has every pattern that is accepted, in the order given, and is
    /// empty only where none is.
    pub fn compile(patterns: Vec<String>) -> (set: FilterSet)
        ensures
            set@ == accepted_patterns(patterns.deep_view()),
    {
        let ghost given = patterns.deep_view();
        let flags = judge(&patterns);
        let accepted = select(patterns, &flags);
        if accepted.len() == 0 {
            assert(accepted.deep_view() =~= Seq::empty());
            return FilterSet::empty();
        }
        let compiled = regex_set_of(&accepted);
        let singles = if compiled.is_some() {
            Vec::new()
        } else {
            proof {
                assert forall|i: int| 0 <= i < accepted.len() implies pattern_accepted(
                    #[trigger] accepted[i]@,
                ) by {
                    accepted_patterns_are_accepted(given, i);
                    assert(accepted.deep_view()[i] == accepted[i]@);
                }
            }
            compile_each(&accepted)
        };
        FilterSet { compiled, singles, raw: accepted }
    }

    /// Replaces the filter set by the one that `patterns` compiles to.
    pub fn update(&mut self, patterns: Vec<String>)
        ensures
            final(self)@ == accepted_patterns(patterns.deep_view()),
    {
        *self = FilterSet::compile(patterns);
    }

    /// Whether the filter set has no pattern.
    pub fn is_empty(&self) -> (yes: bool)
        ensures
            yes == (self@.len() == 0),
    {
        self.raw.len() == 0
    }

    /// Whether at least one pattern of the set matches `text`.
    pub fn matches(&self, text: &str) -> (hit: bool)
        ensures
            hit == any_matches(self@, text@),
    {
        proof {
            use_type_invariant(self);
        }
        match &self.compiled {
            Some(set) => regex_set_matches(set, text),
            None => any_single_matches(&self.singles, text),
        }
    }

    /// The patterns of the set, as they were given, in their order.
    pub fn describe(&self) -> (patterns: Vec<String>)
        ensures
            patterns.deep_view() == self@,
    {
        clone_texts(&self.raw)
    }
}

/// A filter set without patterns matches no text, and no patterns compile
/// to a filter set without patterns.
pub proof fn empty_filter_matches_nothing(text: Seq<char>)
    ensures
        !any_matches(Seq::empty(), text),
        accepted_patterns(Seq::empty()) == Seq::<Seq<char>>::empty(),
{
    assert(accepted_patterns(Seq::empty()) =~= Seq::empty());
}

/// A pattern of a compiled filter set is one of the patterns given, and is
/// accepted.
pub proof fn accepted_patterns_are_accepted(patterns: Seq<Seq<char>>, i: int)
    requires
        0 <= i < accepted_patterns(patterns).len(),
    ensures
        patterns.contains(accepted_patterns(patterns)[i]),
        pattern_accepted(accepted_patterns(patterns)[i]),
{
    selected_are_flagged(patterns, verdicts(patterns), i);
}

/// A pattern that is accepted is a pattern of the compiled filter set,
/// whatever the other patterns are.
pub proof fn accepted_pattern_is_kept(patterns: Seq<Seq<char>>, k: int)
    requires
        0 <= k < patterns.len(),
        pattern_accepted(patterns[k]),
    ensures
        accepted_patterns(patterns).contains(patterns[k]),
{
    flagged_are_selected(patterns, verdicts(patterns), k);
}

/// A filter set matches a text exactly when one of the patterns given is
/// accepted and matches the text.
pub proof fn filter_matches_by_accepted_patterns(patterns: Seq<Seq<char>>, text: Seq<char>)
    ensures
        any_matches(accepted_patterns(patterns), text) == (exists|k: int|
            0 <= k < patterns.len() && pattern_accepted(#[trigger] patterns[k]) && pattern_matches(
                patterns[k],
                text,
            )),
{
    let kept = accepted_patterns(patterns);
    if any_matches(kept, text) {
        let i = choose|i: int| 0 <= i < kept.len() && pattern_matches(#[trigger] kept[i], text);
        selected_are_flagged(patterns, verdicts(patterns), i);
        let k = choose|k: int|
            0 <= k < patterns.len() && k < verdicts(patterns).len() && verdicts(patterns)[k]
                && #[trigger] patterns[k] == kept[i];
        assert(pattern_accepted(patterns[k]) && pattern_matches(patterns[k], text));
    }
    if exists|k: int|
        0 <= k < patterns.len() && pattern_accepted(#[trigger] patterns[k]) && pattern_matches(
            patterns[k],
            text,
        ) {
        let k = choose|k: int|
            0 <= k < patterns.len() && pattern_accepted(#[trigger] patterns[k]) && pattern_matches(
                patterns[k],
                text,
            );
        flagged_are_selected(patterns, verdicts(patterns), k);
        let i = choose|i: int| 0 <= i < kept.len() && kept[i] == patterns[k];
        assert(pattern_matches(kept[i], text));
    }
}

/// An item whose flag is set is a selected item.
pub proof fn flagged_are_selected(items: Seq<Seq<char>>, keep: Seq<bool>, k: int)
    requires
        keep.len() == items.len(),
        0 <= k < items.len(),
        keep[k],
    ensures
        selected(items, keep).contains(items[k]),
    decreases items.len(),
{
    let all = selected(items, keep);
    let rest = selected(items.drop_last(), keep.drop_last());
    if k == items.len() - 1 {
        assert(all[all.len() - 1] == items[k]);
    } else {
        flagged_are_selected(items.drop_last(), keep.drop_last(), k);
        let i = choose|i: int| 0 <= i < rest.len() && rest[i] == items.drop_last()[k];
        assert(all[i] == items[k]);
    }
}

/// A selected item is an item whose flag is set.
pub proof fn selected_are_flagged(items: Seq<Seq<char>>, keep: Seq<bool>, i: int)
    requires
        0 <= i < selected(items, keep).len(),
    ensures
        exists|k: int|
            0 <= k < items.len() && k < keep.len() && keep[k] && #[trigger] items[k] == selected(
                items,
                keep,
            )[i],
    decreases items.len(),
{
    if items.len() > 0 && keep.len() == items.len() {
        let rest = selected(items.drop_last(), keep.drop_last());
        if i < rest.len() {
            selected_are_flagged(items.drop_last(), keep.drop_last(), i);
            let k = choose|k: int|
                0 <= k < items.drop_last().len() && k < keep.drop_last().len()
                    && keep.drop_last()[k] && #[trigger] items.drop_last()[k] == rest[i];
            assert(items[k] == selected(items, keep)[i]);
        } else {
            assert(items[items.len() - 1] == selected(items, keep)[i]);
        }
    }
}

} // verus!
