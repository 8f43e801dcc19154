//! Ordered rules, of which the first that holds decides.

use crate::LTS;
use vstd::prelude::*;

verus! {

/// One rule of a stage, as it stands for one set of tags: whether its
/// condition holds, the category it gives, and the note that it leaves on
/// the trail.
pub struct Rule {
    pub holds: bool,
    pub outcome: LTS,
    pub note: Seq<char>,
}

/// The rule at position `i` is the one that decides: it holds, and none
/// before it does.
pub open spec fn fires(rules: Seq<Rule>, i: int) -> bool {
    &&& 0 <= i < rules.len()
    &&& rules[i].holds
    &&& forall|j: int| 0 <= j < i ==> !(#[trigger] rules[j]).holds
}

/// The first rule that holds, if any does.
pub open spec fn first_match(rules: Seq<Rule>) -> Option<Rule> {
    if exists|i: int| fires(rules, i) {
        Some(rules[choose|i: int| fires(rules, i)])
    } else {
        None
    }
}

/// The category that a stage gives: that of the rule that decided.
pub open spec fn outcome_of(found: Option<Rule>) -> Option<LTS> {
    match found {
        Some(rule) => Some(rule.outcome),
        None => None,
    }
}

/// The notes that a stage leaves: the note of the rule that decided, and
/// nothing where none did.
pub open spec fn note_of(found: Option<Rule>) -> Seq<Seq<char>> {
    match found {
        Some(rule) => seq![rule.note],
        None => seq![],
    }
}

/// No rule of the stage holds.
pub open spec fn none_holds(rules: Seq<Rule>) -> bool {
    forall|i: int| 0 <= i < rules.len() ==> !(#[trigger] rules[i]).holds
}

/// The rule that fires is the first match.
pub proof fn lemma_first_match_fires(rules: Seq<Rule>, i: int)
    requires
        fires(rules, i),
    ensures
        first_match(rules) == Some(rules[i]),
{
    let chosen = choose|k: int| fires(rules, k);
    assert(chosen == i);
}

/// Where no rule holds there is no match.
pub proof fn lemma_no_match(rules: Seq<Rule>)
    requires
        none_holds(rules),
    ensures
        first_match(rules) is None,
{
}

/// Where some rule holds, one rule at or before it fires: a stage with a
/// rule that holds always decides.
pub proof fn lemma_holding_rule_decides(rules: Seq<Rule>, i: int) -> (k: int)
    requires
        0 <= i < rules.len(),
        rules[i].holds,
    ensures
        0 <= k <= i,
        fires(rules, k),
        first_match(rules) == Some(rules[k]),
    decreases i,
{
    if exists|j: int| 0 <= j < i && (#[trigger] rules[j]).holds {
        let j = choose|j: int| 0 <= j < i && (#[trigger] rules[j]).holds;
        lemma_holding_rule_decides(rules, j)
    } else {
        lemma_first_match_fires(rules, i);
        i
    }
}

} // verus!
