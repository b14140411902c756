//! The rule engine: a pure function from a file's attributes and a rule set
//! to a score.

use crate::file_info::{FileAttributes, FileAttributesView, Score};
use crate::text::chars_of;
use crate::tidy_rules::{Rule, RuleView};
use vstd::prelude::*;

verus! {

/// The classification policy of one run of the agent: the rules in the order
/// in which they were loaded, and the time of loading in seconds. A rule set
/// does not change once it is made.
#[derive(Clone, Debug, PartialEq, Eq)]
pub struct RuleSet {
    rules: Vec<Rule>,
    loaded_at: u64,
}

/// Mathematical value of a [`RuleSet`].
pub struct RuleSetView {
    pub rules: Seq<RuleView>,
    pub loaded_at: u64,
}

/// The values of the rules of `rules`, in order.
pub open spec fn rule_views(rules: Seq<Rule>) -> Seq<RuleView> {
    rules.map_values(|rule: Rule| rule@)
}

impl View for RuleSet {
    type V = RuleSetView;

    closed spec fn view(&self) -> RuleSetView {
        RuleSetView { rules: rule_views(self.rules@), loaded_at: self.loaded_at }
    }
}

/// What `file` earns from `rules`: the sum of the weights of the rules that it satisfies.
pub open spec fn score_of(rules: Seq<RuleView>, file: FileAttributesView, loaded_at: u64) -> nat
    decreases rules.len(),
{
    if rules.len() == 0 {
        0
    } else {
        score_of(rules.drop_last(), file, loaded_at) + rules.last().contribution(file, loaded_at)
    }
}

/// The score of `file` under `rule_set`.
pub open spec fn spec_evaluate(file: FileAttributesView, rule_set: RuleSetView) -> nat {
    score_of(rule_set.rules, file, rule_set.loaded_at)
}

impl RuleSet {
    /// A rule set without rules, loaded at `loaded_at`.
    pub fn new(loaded_at: u64) -> (rule_set: RuleSet)
        ensures
            rule_set@ == (RuleSetView { rules: Seq::empty(), loaded_at }),
    {
        let rule_set = RuleSet { rules: Vec::new(), loaded_at };
        assert(rule_set@.rules =~= Seq::empty());
        rule_set
    }

    /// The rule set that holds `rules`, in this order, loaded at `loaded_at`.
    pub fn from_rules(rules: Vec<Rule>, loaded_at: u64) -> (rule_set: RuleSet)
        ensures
            rule_set@ == (RuleSetView { rules: rule_views(rules@), loaded_at }),
    {
        RuleSet { rules, loaded_at }
    }

    /// The rules, in the order in which they were loaded.
    pub fn rules(&self) -> (rules: &Vec<Rule>)
        ensures
            rule_views(rules@) == self@.rules,
    {
        &self.rules
    }

    /// The time at which the rule set was loaded, in seconds.
    pub fn loaded_at(&self) -> (loaded_at: u64)
        ensures
            loaded_at == self@.loaded_at,
    {
        self.loaded_at
    }

    /// The number of rules.
    pub fn len(&self) -> (len: usize)
        ensures
            len == self@.rules.len(),
    {
        self.rules.len()
    }
}

/// Scores `file` under `rule_set`: the sum of the weights of the rules that
/// the file satisfies. A malformed rule earns nothing and stops nothing.
pub fn evaluate(file: &FileAttributes, rule_set: &RuleSet) -> (score: Score)
    ensures
        score == spec_evaluate(file@, rule_set@),
{
    let path = chars_of(file.path.as_str());
    let ghost rules = rule_set@.rules;
    let mut score: Score = 0;
    let mut at: usize = 0;
    while at < rule_set.rules.len()
        invariant
            at <= rule_set.rules.len(),
            path@ == file@.path,
            rules == rule_set@.rules,
            score == score_of(rules.take(at as int), file@, rule_set.loaded_at),
            score <= at * u32::MAX,
        decreases rule_set.rules.len() - at,
    {
        let rule = &rule_set.rules[at];
        assert(rules.take(at + 1).drop_last() =~= rules.take(at as int));
        assert(rules.take(at + 1).last() == rule@);
        if rule.check(file, &path, rule_set.loaded_at) {
            score = score + rule.weight() as Score;
        }
        at = at + 1;
    }
    assert(rules.take(at as int) =~= rules);
    score
}

/// Scoring is a function of its inputs: equal attributes under equal rule
/// sets have equal scores.
pub proof fn lemma_evaluate_is_deterministic(
    file: FileAttributesView,
    other_file: FileAttributesView,
    rule_set: RuleSetView,
    other_rule_set: RuleSetView,
)
    requires
        file == other_file,
        rule_set == other_rule_set,
    ensures
        spec_evaluate(file, rule_set) == spec_evaluate(other_file, other_rule_set),
{
}

/// The score under two lists of rules put together is the sum of the scores
/// under each.
pub proof fn lemma_score_is_additive(
    first: Seq<RuleView>,
    second: Seq<RuleView>,
    file: FileAttributesView,
    loaded_at: u64,
)
    ensures
        score_of(first + second, file, loaded_at) == score_of(first, file, loaded_at) + score_of(
            second,
            file,
            loaded_at,
        ),
    decreases second.len(),
{
    if second.len() == 0 {
        assert(first + second =~= first);
    } else {
        lemma_score_is_additive(first, second.drop_last(), file, loaded_at);
        assert((first + second).drop_last() =~= first + second.drop_last());
        assert((first + second).last() == second.last());
    }
}

/// Taking one rule out of a list lowers the score by what that rule earned.
pub proof fn lemma_score_without_rule(
    rules: Seq<RuleView>,
    at: int,
    file: FileAttributesView,
    loaded_at: u64,
)
    requires
        0 <= at < rules.len(),
    ensures
        score_of(rules, file, loaded_at) == score_of(rules.remove(at), file, loaded_at)
            + rules[at].contribution(file, loaded_at),
{
    let before = rules.take(at);
    let after = rules.skip(at + 1);
    let one = seq![rules[at]];
    assert(rules =~= before + one + after);
    assert(rules.remove(at) =~= before + after);
    lemma_score_is_additive(before + one, after, file, loaded_at);
    lemma_score_is_additive(before, one, file, loaded_at);
    lemma_score_is_additive(before, after, file, loaded_at);
    assert(score_of(one, file, loaded_at) == rules[at].contribution(file, loaded_at)) by {
        assert(one.drop_last() =~= Seq::<RuleView>::empty());
        assert(score_of(one.drop_last(), file, loaded_at) == 0);
        assert(one.last() == rules[at]);
    }
}

/// The score does not depend on the order of the rules: two lists that hold
/// the same rules the same number of times give the same score.
pub proof fn lemma_score_ignores_order(
    rules: Seq<RuleView>,
    reordered: Seq<RuleView>,
    file: FileAttributesView,
    loaded_at: u64,
)
    requires
        rules.to_multiset() == reordered.to_multiset(),
    ensures
        score_of(rules, file, loaded_at) == score_of(reordered, file, loaded_at),
    decreases rules.len(),
{
    broadcast use vstd::seq_lib::group_to_multiset_ensures;

    rules.to_multiset_ensures();
    reordered.to_multiset_ensures();
    if rules.len() == 0 {
        assert(reordered.len() == 0);
    } else {
        let rule = rules.last();
        assert(rules.contains(rule));
        assert(rules.to_multiset().count(rule) > 0);
        assert(reordered.contains(rule));
        let at = reordered.index_of(rule);
        assert(rules.drop_last() =~= rules.remove(rules.len() - 1));
        assert(rules.drop_last().to_multiset() =~= rules.to_multiset().remove(rule));
        assert(reordered.remove(at).to_multiset() =~= reordered.to_multiset().remove(rule));
        lemma_score_ignores_order(rules.drop_last(), reordered.remove(at), file, loaded_at);
        lemma_score_without_rule(reordered, at, file, loaded_at);
    }
}

} // verus!
