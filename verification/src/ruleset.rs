//! Group of related rules
use vstd::prelude::*;

use crate::metadata::{MetaValue, MetaValueView, Metadata};
use crate::preprocessors::{
    context_built_for, items_view, preprocess_spec, ItemView, Preprocessor, PreprocessorContext,
};
use crate::rule::GenericMatcherRule;
use crate::text::str_eq;
use crate::{GenericMatchResult, GenericMatchView};

verus! {

/// Common configuration for rules
#[derive(Clone, Copy)]
pub struct CommonRuleConfig {
    /// Whether match on this rule should result in early exit from ruleset
    pub exit_on_match: bool,
}

impl Default for CommonRuleConfig {
    fn default() -> (r: Self)
        ensures
            !r.exit_on_match,
    {
        CommonRuleConfig { exit_on_match: false }
    }
}

/// Rule set
#[derive(Clone)]
pub struct RuleSet<R> {
    /// Name of the rule set
    pub name: String,
    /// String to match against
    pub string_match: String,
    /// Preprocessors to apply to input strings before passing them to rules
    pub preprocessors: Vec<Preprocessor>,
    /// Rules to apply to this match
    pub rules: Vec<(CommonRuleConfig, R)>,
}

/// Context of a ruleset (external state)
pub struct RulesetContext {
    /// Context of each preprocessor, in the order of the preprocessors
    pub preprocessors: Vec<PreprocessorContext>,
}

/// Whether `contexts` holds, for each of `preprocessors`, the context that
/// [`Preprocessor::build_context`] builds for it, in the same order.
pub open spec fn contexts_built_for(preprocessors: Seq<Preprocessor>, contexts: Seq<PreprocessorContext>) -> bool {
    &&& contexts.len() == preprocessors.len()
    &&& forall|i: int|
        0 <= i < preprocessors.len() ==> context_built_for(preprocessors[i], #[trigger] contexts[i])
}

/// Whether every rule states its behaviour (as every rule of this library does).
pub open spec fn rules_specified<R: GenericMatcherRule>(rules: Seq<(CommonRuleConfig, R)>) -> bool {
    forall|k: int| 0 <= k < rules.len() ==> (#[trigger] rules[k]).1.specified()
}

/// Whether every rule of every rule set states its behaviour.
pub open spec fn rule_sets_specified<R: GenericMatcherRule>(rule_sets: Seq<RuleSet<R>>) -> bool {
    forall|k: int| 0 <= k < rule_sets.len() ==> rules_specified((#[trigger] rule_sets[k]).rules@)
}

/// The abstract values of a list of results.
pub open spec fn results_view(results: Seq<GenericMatchResult>) -> Seq<GenericMatchView> {
    results.map_values(|r: GenericMatchResult| r.gview())
}

/// A recorded result: the metadata of the input string (gathered by the preprocessors) is
/// added to the rule's metadata, then whether it matched and the rule type.
pub open spec fn recorded_view(v: GenericMatchView, extra: Map<Seq<char>, MetaValueView>) -> GenericMatchView {
    GenericMatchView {
        rule_type: v.rule_type,
        matched: v.matched,
        metadata: v.metadata.union_prefer_right(extra).insert(
            "match"@,
            MetaValueView::Bool(v.matched),
        ).insert("rule_type"@, MetaValueView::Str(v.rule_type)),
    }
}

/// A recorded result marked as the one that ended the rule set early.
pub open spec fn early_exit_view(v: GenericMatchView) -> GenericMatchView {
    GenericMatchView {
        metadata: v.metadata.insert("early_match_exit"@, MetaValueView::Bool(true)),
        ..v
    }
}

/// The results recorded for one input string by the rules from the `k`-th on: a rule that
/// fails records nothing; a match is always recorded, a mismatch only when
/// `full_metadata_for_all` is set; a match of a rule configured to exit on match ends the
/// list.
pub open spec fn rule_results_from<R: GenericMatcherRule>(
    rules: Seq<(CommonRuleConfig, R)>,
    k: int,
    item: ItemView,
    target: Seq<char>,
    full_metadata_for_all: bool,
) -> Seq<GenericMatchView>
    decreases rules.len() - k,
{
    if k < 0 || k >= rules.len() {
        Seq::empty()
    } else {
        let rest = rule_results_from(rules, k + 1, item, target, full_metadata_for_all);
        match rules[k].1.spec_outcome(item.0, target, full_metadata_for_all) {
            None => rest,
            Some(v) => {
                let entry = recorded_view(v, item.1);
                if v.matched && rules[k].0.exit_on_match {
                    seq![early_exit_view(entry)]
                } else if v.matched || full_metadata_for_all {
                    seq![entry] + rest
                } else {
                    rest
                }
            },
        }
    }
}

/// The results recorded for a list of input strings, one string after another.
pub open spec fn results_for_items<R: GenericMatcherRule>(
    rules: Seq<(CommonRuleConfig, R)>,
    items: Seq<ItemView>,
    target: Seq<char>,
    full_metadata_for_all: bool,
) -> Seq<GenericMatchView>
    decreases items.len(),
{
    if items.len() == 0 {
        Seq::empty()
    } else {
        results_for_items(rules, items.drop_last(), target, full_metadata_for_all)
            + rule_results_from(rules, 0, items.last(), target, full_metadata_for_all)
    }
}

/// The input strings after the first `k` preprocessors, starting from `input` with empty
/// metadata.
pub open spec fn preprocessed_upto(
    preprocessors: Seq<Preprocessor>,
    contexts: Seq<PreprocessorContext>,
    input: Seq<char>,
    k: int,
) -> Seq<ItemView>
    decreases k,
{
    if k <= 0 {
        seq![(input, Map::empty())]
    } else {
        preprocess_spec(
            preprocessors[k - 1],
            contexts[k - 1],
            preprocessed_upto(preprocessors, contexts, input, k - 1),
            Seq::empty(),
        )
    }
}

/// Whether none of the contexts needs the outcome of a regex scan.
pub open spec fn no_regex_scan(contexts: Seq<PreprocessorContext>) -> bool {
    forall|i: int| 0 <= i < contexts.len() ==> !(#[trigger] contexts[i]).spec_needs_regex_scan()
}

/// Whether a result is recorded as the rule set records any rule result for the string
/// `item`: it is a match unless `full_metadata_for_all` is set, its `match` and `rule_type`
/// entries say whether it matched and which rule made it, and it keeps every metadata key of
/// the string.
pub open spec fn recorded_from(result: GenericMatchView, item: ItemView, full_metadata_for_all: bool) -> bool {
    &&& result.matched || full_metadata_for_all
    &&& result.metadata.contains_key("match"@)
    &&& result.metadata["match"@] == MetaValueView::Bool(result.matched)
    &&& result.metadata.contains_key("rule_type"@)
    &&& result.metadata["rule_type"@] == MetaValueView::Str(result.rule_type)
    &&& forall|k: Seq<char>| item.1.contains_key(k) ==> #[trigger] result.metadata.contains_key(k)
}

/// Whether a result is marked as the one that ended the rule set early.
pub open spec fn exit_marked(result: GenericMatchView) -> bool {
    result.metadata.contains_key("early_match_exit"@) && result.metadata["early_match_exit"@]
        == MetaValueView::Bool(true)
}

/// Whether `(i, k)` comes before `(j, l)`: an earlier string, or the same string and an earlier
/// rule.
pub open spec fn origin_before(a: (int, int), b: (int, int)) -> bool {
    a.0 < b.0 || (a.0 == b.0 && a.1 < b.1)
}

/// Whether `results` are recorded by the rules `rules` for the strings `items`, result `j`
/// coming from string `origin[j].0` and rule `origin[j].1`: each is [`recorded_from`] its
/// string, they come in the order of strings and then of rules, each (string, rule) at most
/// once, and after a match of a rule configured to exit on match, which is marked so, nothing
/// more is recorded for that string.
pub open spec fn recorded_in_order<R>(
    rules: Seq<(CommonRuleConfig, R)>,
    items: Seq<ItemView>,
    results: Seq<GenericMatchView>,
    origin: Seq<(int, int)>,
    full_metadata_for_all: bool,
) -> bool {
    &&& origin.len() == results.len()
    &&& forall|j: int|
        0 <= j < results.len() ==> {
            &&& 0 <= (#[trigger] origin[j]).0 < items.len()
            &&& 0 <= origin[j].1 < rules.len()
            &&& recorded_from(results[j], items[origin[j].0], full_metadata_for_all)
            &&& results[j].matched && rules[origin[j].1].0.exit_on_match ==> exit_marked(
                results[j],
            )
        }
    &&& forall|j: int, l: int|
        0 <= j < l < results.len() ==> origin_before(#[trigger] origin[j], #[trigger] origin[l])
    &&& forall|j: int, l: int|
        0 <= j < l < results.len() && results[j].matched && rules[origin[j].1].0.exit_on_match
            ==> (#[trigger] origin[j]).0 < (#[trigger] origin[l]).0
}

/// What a rule set observed of one of its rules while matching input strings: whether the
/// rule matched any of them, and how many times it failed with an error.
#[derive(Clone, Copy)]
pub struct RuleTally {
    /// Whether the rule matched at least one string
    pub matched: bool,
    /// Number of strings on which the rule failed with an error
    pub errors: usize,
}

/// Whether the rule at `j` ends the rule set for the string `item`: it matches and is
/// configured to exit on match.
pub open spec fn exits_at<R: GenericMatcherRule>(
    rules: Seq<(CommonRuleConfig, R)>,
    j: int,
    item: ItemView,
    target: Seq<char>,
    full_metadata_for_all: bool,
) -> bool {
    match rules[j].1.spec_outcome(item.0, target, full_metadata_for_all) {
        Some(v) => v.matched && rules[j].0.exit_on_match,
        None => false,
    }
}

/// Whether the rule at `k` runs on the string `item`: no earlier rule ended the rule set.
pub open spec fn rule_reached<R: GenericMatcherRule>(
    rules: Seq<(CommonRuleConfig, R)>,
    k: int,
    item: ItemView,
    target: Seq<char>,
    full_metadata_for_all: bool,
) -> bool {
    forall|j: int| 0 <= j < k ==> !#[trigger] exits_at(rules, j, item, target, full_metadata_for_all)
}

/// Whether the rule at `k` runs on `item` and fails with an error.
pub open spec fn rule_fails_on<R: GenericMatcherRule>(
    rules: Seq<(CommonRuleConfig, R)>,
    k: int,
    item: ItemView,
    target: Seq<char>,
    full_metadata_for_all: bool,
) -> bool {
    rule_reached(rules, k, item, target, full_metadata_for_all) && rules[k].1.spec_outcome(
        item.0,
        target,
        full_metadata_for_all,
    ) is None
}

/// Whether the rule at `k` runs on `item` and matches it.
pub open spec fn rule_matches_on<R: GenericMatcherRule>(
    rules: Seq<(CommonRuleConfig, R)>,
    k: int,
    item: ItemView,
    target: Seq<char>,
    full_metadata_for_all: bool,
) -> bool {
    rule_reached(rules, k, item, target, full_metadata_for_all) && match rules[k].1.spec_outcome(
        item.0,
        target,
        full_metadata_for_all,
    ) {
        Some(v) => v.matched,
        None => false,
    }
}

/// A tally updated with what the rule at `k` did on `item`.
pub open spec fn tally_after<R: GenericMatcherRule>(
    t: RuleTally,
    rules: Seq<(CommonRuleConfig, R)>,
    k: int,
    item: ItemView,
    target: Seq<char>,
    full_metadata_for_all: bool,
) -> RuleTally {
    RuleTally {
        matched: t.matched || rule_matches_on(rules, k, item, target, full_metadata_for_all),
        errors: (t.errors + if rule_fails_on(rules, k, item, target, full_metadata_for_all) {
            1int
        } else {
            0int
        }) as usize,
    }
}

/// Number of strings of `items` on which the rule at `k` fails with an error.
pub open spec fn error_count<R: GenericMatcherRule>(
    rules: Seq<(CommonRuleConfig, R)>,
    k: int,
    items: Seq<ItemView>,
    target: Seq<char>,
    full_metadata_for_all: bool,
) -> nat
    decreases items.len(),
{
    if items.len() == 0 {
        0
    } else {
        error_count(rules, k, items.drop_last(), target, full_metadata_for_all) + if rule_fails_on(
            rules,
            k,
            items.last(),
            target,
            full_metadata_for_all,
        ) {
            1nat
        } else {
            0nat
        }
    }
}

/// Whether the rule at `k` matches some string of `items`.
pub open spec fn matched_any<R: GenericMatcherRule>(
    rules: Seq<(CommonRuleConfig, R)>,
    k: int,
    items: Seq<ItemView>,
    target: Seq<char>,
    full_metadata_for_all: bool,
) -> bool {
    exists|i: int|
        0 <= i < items.len() && #[trigger] rule_matches_on(
            rules,
            k,
            items[i],
            target,
            full_metadata_for_all,
        )
}

/// The tally of the rule at `k` over `items`.
pub open spec fn tally_of<R: GenericMatcherRule>(
    rules: Seq<(CommonRuleConfig, R)>,
    k: int,
    items: Seq<ItemView>,
    target: Seq<char>,
    full_metadata_for_all: bool,
) -> RuleTally {
    RuleTally {
        matched: matched_any(rules, k, items, target, full_metadata_for_all),
        errors: error_count(rules, k, items, target, full_metadata_for_all) as usize,
    }
}

/// A rule fails on at most as many strings as there are.
proof fn lemma_error_count_bounded<R: GenericMatcherRule>(
    rules: Seq<(CommonRuleConfig, R)>,
    k: int,
    items: Seq<ItemView>,
    target: Seq<char>,
    full_metadata_for_all: bool,
)
    ensures
        error_count(rules, k, items, target, full_metadata_for_all) <= items.len(),
    decreases items.len(),
{
    if items.len() > 0 {
        lemma_error_count_bounded(rules, k, items.drop_last(), target, full_metadata_for_all);
    }
}

impl<R: GenericMatcherRule> RuleSet<R> {
    /// The results this rule set records for `input`: the input string goes through the
    /// preprocessors, then each resulting string through the rules.
    pub open spec fn spec_generate_matches(
        &self,
        input: Seq<char>,
        contexts: Seq<PreprocessorContext>,
        full_metadata_for_all: bool,
    ) -> Seq<GenericMatchView> {
        results_for_items(
            self.rules@,
            preprocessed_upto(self.preprocessors@, contexts, input, self.preprocessors@.len() as int),
            self.string_match@,
            full_metadata_for_all,
        )
    }

    /// Builds the context of this rule set: the context of each of its preprocessors.
    pub fn build_context(&self) -> (r: RulesetContext)
        ensures
            contexts_built_for(self.preprocessors@, r.preprocessors@),
    {
        let mut contexts: Vec<PreprocessorContext> = Vec::new();
        let n = self.preprocessors.len();
        for i in 0..n
            invariant
                n == self.preprocessors.len(),
                contexts@.len() == i,
                forall|j: int|
                    0 <= j < i ==> context_built_for(
                        self.preprocessors@[j],
                        #[trigger] contexts@[j],
                    ),
        {
            contexts.push(self.preprocessors[i].build_context());
        }
        RulesetContext { preprocessors: contexts }
    }

    /// Appends the results the rules record for one input string, and updates the tally of
    /// each rule with what it did on that string.
    #[verifier::spinoff_prover]
    #[verifier::rlimit(40)]
    fn match_item(
        &self,
        item: &(String, Metadata),
        full_metadata_for_all: bool,
        out: &mut Vec<GenericMatchResult>,
        tally: &mut Vec<RuleTally>,
    ) -> (idx: Ghost<Seq<int>>)
        requires
            old(tally)@.len() == self.rules@.len(),
            forall|j: int| 0 <= j < old(tally)@.len() ==> old(tally)@[j].errors < usize::MAX,
        ensures
            idx@.len() <= self.rules@.len(),
            final(out)@.len() == old(out)@.len() + idx@.len(),
            forall|j: int| 0 <= j < old(out)@.len() ==> final(out)@[j] == old(out)@[j],
            forall|a: int|
                0 <= a < idx@.len() ==> {
                    &&& 0 <= #[trigger] idx@[a] < self.rules@.len()
                    &&& recorded_from(
                        final(out)@[old(out)@.len() + a].gview(),
                        (item.0@, item.1@),
                        full_metadata_for_all,
                    )
                    &&& final(out)@[old(out)@.len() + a].matched && self.rules@[idx@[a]].0.exit_on_match
                        ==> exit_marked(final(out)@[old(out)@.len() + a].gview())
                },
            forall|a: int, b: int|
                0 <= a < b < idx@.len() ==> #[trigger] idx@[a] < #[trigger] idx@[b] && !(
                final(out)@[old(out)@.len() + a].matched && self.rules@[idx@[a]].0.exit_on_match),
            final(tally)@.len() == old(tally)@.len(),
            forall|j: int|
                0 <= j < final(tally)@.len() ==> final(tally)@[j].errors <= old(tally)@[j].errors + 1,
            rules_specified(self.rules@) ==> results_view(final(out)@) == results_view(old(out)@)
                + rule_results_from(
                self.rules@,
                0,
                (item.0@, item.1@),
                self.string_match@,
                full_metadata_for_all,
            ),
            rules_specified(self.rules@) ==> forall|j: int|
                0 <= j < final(tally)@.len() ==> final(tally)@[j] == tally_after(
                    old(tally)@[j],
                    self.rules@,
                    j,
                    (item.0@, item.1@),
                    self.string_match@,
                    full_metadata_for_all,
                ),
    {
        let ghost iv = (item.0@, item.1@);
        let ghost start = results_view(out@);
        let ghost t0 = tally@;
        let ghost rules = self.rules@;
        let ghost target = self.string_match@;
        let ghost o0 = out@;
        let ghost mut idx: Seq<int> = Seq::empty();
        let n = self.rules.len();
        let mut k: usize = 0;
        while k < n
            invariant
                n == self.rules.len(),
                o0 == old(out)@,
                out@.len() == o0.len() + idx.len(),
                idx.len() <= k,
                forall|j: int| 0 <= j < o0.len() ==> out@[j] == o0[j],
                forall|a: int|
                    0 <= a < idx.len() ==> {
                        &&& 0 <= #[trigger] idx[a] < k
                        &&& recorded_from(out@[o0.len() + a].gview(), iv, full_metadata_for_all)
                        &&& !(out@[o0.len() + a].matched && rules[idx[a]].0.exit_on_match)
                    },
                forall|a: int, b: int| 0 <= a < b < idx.len() ==> #[trigger] idx[a] < #[trigger] idx[b],
                rules == self.rules@,
                target == self.string_match@,
                k <= n,
                iv == (item.0@, item.1@),
                start == results_view(old(out)@),
                t0 == old(tally)@,
                tally@.len() == n,
                forall|j: int| 0 <= j < n ==> tally@[j].errors <= t0[j].errors + 1,
                forall|j: int| k <= j < n ==> tally@[j] == t0[j],
                t0.len() == n,
                forall|j: int| 0 <= j < n ==> t0[j].errors < usize::MAX,
                rules_specified(self.rules@) ==> results_view(out@) + rule_results_from(
                    self.rules@,
                    k as int,
                    iv,
                    self.string_match@,
                    full_metadata_for_all,
                ) == start + rule_results_from(
                    self.rules@,
                    0,
                    iv,
                    self.string_match@,
                    full_metadata_for_all,
                ),
                rules_specified(self.rules@) ==> rule_reached(
                    rules,
                    k as int,
                    iv,
                    target,
                    full_metadata_for_all,
                ),
                rules_specified(self.rules@) ==> forall|j: int|
                    0 <= j < k ==> tally@[j] == tally_after(
                        t0[j],
                        rules,
                        j,
                        iv,
                        target,
                        full_metadata_for_all,
                    ),
            decreases n - k,
        {
            let config = self.rules[k].0;
            let ghost before = results_view(out@);
            let ghost prev_out = out@;
            proof {
                reveal_strlit("match");
                reveal_strlit("rule_type");
                reveal_strlit("early_match_exit");
                assert("match"@.len() == 5);
                assert("rule_type"@.len() == 9);
                assert("early_match_exit"@.len() == 16);
            }
            assert(rules_specified(self.rules@) ==> self.rules@[k as int].1.specified());
            let ghost rest = rule_results_from(
                self.rules@,
                k + 1,
                iv,
                self.string_match@,
                full_metadata_for_all,
            );
            let current = tally[k];
            assert(current == t0[k as int]);
            match self.rules[k].1.match_rule_generic(
                item.0.as_str(),
                self.string_match.as_str(),
                full_metadata_for_all,
            ) {
                Ok(result) => {
                    let matched = result.matched;
                    if matched {
                        tally.set(k, RuleTally { matched: true, errors: current.errors });
                    }
                    if matched || full_metadata_for_all {
                        let mut result = result;
                        result.metadata.extend_from(&item.1);
                        let ghost extended = result.metadata@;
                        let mut recorded = result.into_full_metadata();
                        proof {
                            assert forall|key: Seq<char>| iv.1.contains_key(key) implies #[trigger] recorded.metadata@.contains_key(key) by {
                                assert(extended.contains_key(key));
                            }
                            assert(recorded.metadata@.contains_key("match"@));
                            assert(recorded.metadata@["match"@] == MetaValueView::Bool(recorded.matched));
                            assert(recorded.metadata@["rule_type"@] == MetaValueView::Str(recorded.rule_type@));
                        }
                        if matched && config.exit_on_match {
                            recorded.metadata.insert(
                                String::from_str("early_match_exit"),
                                MetaValue::Bool(true),
                            );
                            out.push(recorded);
                            proof {
                                idx = idx.push(k as int);
                                assert(recorded_from(recorded.gview(), iv, full_metadata_for_all));
                                assert(out@[o0.len() + idx.len() - 1] == recorded);
                                assert forall|j: int| 0 <= j < o0.len() implies out@[j] == o0[j] by {
                                    assert(out@[j] == prev_out[j]);
                                }
                                assert forall|a: int| 0 <= a < idx.len() - 1 implies #[trigger] out@[o0.len()
                                    + a] == prev_out[o0.len() + a] by {}
                                assert(results_view(out@) =~= before.push(recorded.gview()));
                                if rules_specified(self.rules@) {
                                    assert(results_view(out@) =~= start + rule_results_from(
                                        self.rules@,
                                        0,
                                        iv,
                                        self.string_match@,
                                        full_metadata_for_all,
                                    ));
                                    assert(exits_at(rules, k as int, iv, target, full_metadata_for_all));
                                    assert forall|j: int| 0 <= j < n implies tally@[j] == tally_after(
                                        t0[j],
                                        rules,
                                        j,
                                        iv,
                                        target,
                                        full_metadata_for_all,
                                    ) by {
                                        if j > k {
                                            assert(!rule_reached(
                                                rules,
                                                j,
                                                iv,
                                                target,
                                                full_metadata_for_all,
                                            ));
                                        }
                                    }
                                }
                            }
                            return Ghost(idx);
                        }
                        out.push(recorded);
                        proof {
                            assert(!(recorded.matched && rules[k as int].0.exit_on_match));
                            idx = idx.push(k as int);
                            assert(recorded_from(recorded.gview(), iv, full_metadata_for_all));
                            assert(out@[o0.len() + idx.len() - 1] == recorded);
                            assert forall|j: int| 0 <= j < o0.len() implies out@[j] == o0[j] by {
                                assert(out@[j] == prev_out[j]);
                            }
                            assert forall|a: int| 0 <= a < idx.len() - 1 implies #[trigger] out@[o0.len()
                                + a] == prev_out[o0.len() + a] by {}
                            assert(results_view(out@) =~= before.push(recorded.gview()));
                            assert(before.push(recorded.gview()) + rest =~= before + (seq![
                                recorded.gview(),
                            ] + rest));
                        }
                    }
                },
                Err(_) => {
                    tally.set(k, RuleTally { matched: current.matched, errors: current.errors + 1 });
                },
            }
            proof {
                if rules_specified(self.rules@) {
                    assert(!exits_at(rules, k as int, iv, target, full_metadata_for_all));
                    assert forall|j: int| 0 <= j < k + 1 implies !#[trigger] exits_at(
                        rules,
                        j,
                        iv,
                        target,
                        full_metadata_for_all,
                    ) by {}
                }
            }
            k = k + 1;
        }
        Ghost(idx)
    }

    /// Runs the rules on each of the input strings, in order, and returns the results they
    /// record with the tally of each rule.
    pub fn match_items_tallied(
        &self,
        items: &Vec<(String, Metadata)>,
        full_metadata_for_all: bool,
    ) -> (r: (Vec<GenericMatchResult>, Vec<RuleTally>))
        ensures
            r.1@.len() == self.rules@.len(),
            r.0@.len() <= items@.len() * self.rules@.len(),
            exists|origin: Seq<(int, int)>|
                recorded_in_order(
                    self.rules@,
                    items_view(items@),
                    results_view(r.0@),
                    origin,
                    full_metadata_for_all,
                ),
            rules_specified(self.rules@) ==> results_view(r.0@) == results_for_items(
                self.rules@,
                items_view(items@),
                self.string_match@,
                full_metadata_for_all,
            ),
            rules_specified(self.rules@) ==> forall|k: int|
                0 <= k < r.1@.len() ==> r.1@[k] == tally_of(
                    self.rules@,
                    k,
                    items_view(items@),
                    self.string_match@,
                    full_metadata_for_all,
                ),
    {
        let ghost rules = self.rules@;
        let ghost target = self.string_match@;
        let ghost iv = items_view(items@);
        let mut tally: Vec<RuleTally> = Vec::new();
        let m = self.rules.len();
        for k in 0..m
            invariant
                m == self.rules.len(),
                tally@.len() == k,
                forall|j: int| 0 <= j < k ==> tally@[j] == (RuleTally { matched: false, errors: 0 }),
        {
            tally.push(RuleTally { matched: false, errors: 0 });
        }
        let mut out: Vec<GenericMatchResult> = Vec::new();
        let ghost mut origin: Seq<(int, int)> = Seq::empty();
        let n = items.len();
        for i in 0..n
            invariant
                n == items.len(),
                out@.len() <= i * m,
                recorded_in_order(rules, iv, results_view(out@), origin, full_metadata_for_all),
                forall|j: int| 0 <= j < origin.len() ==> (#[trigger] origin[j]).0 < i,
                m == self.rules.len(),
                rules == self.rules@,
                target == self.string_match@,
                iv == items_view(items@),
                tally@.len() == m,
                forall|j: int| 0 <= j < m ==> tally@[j].errors <= i,
                rules_specified(self.rules@) ==> results_view(out@) == results_for_items(
                    self.rules@,
                    items_view(items@).take(i as int),
                    self.string_match@,
                    full_metadata_for_all,
                ),
                rules_specified(self.rules@) ==> forall|j: int|
                    0 <= j < m ==> tally@[j] == tally_of(
                        rules,
                        j,
                        iv.take(i as int),
                        target,
                        full_metadata_for_all,
                    ),
        {
            let ghost before = tally@;
            proof {
                let taken = items_view(items@).take(i + 1);
                assert(taken.drop_last() =~= items_view(items@).take(i as int));
                assert(taken.last() == (items@[i as int].0@, items@[i as int].1@));
            }
            let ghost prev = out@;
            let idx = self.match_item(&items[i], full_metadata_for_all, &mut out, &mut tally);
            proof {
                let added = Seq::new(idx@.len(), |a: int| (i as int, idx@[a]));
                let next = origin + added;
                let res = results_view(out@);
                let l0 = prev.len() as int;
                assert(iv[i as int] == (items@[i as int].0@, items@[i as int].1@));
                assert forall|j: int| 0 <= j < res.len() implies {
                    &&& 0 <= (#[trigger] next[j]).0 < iv.len()
                    &&& 0 <= next[j].1 < rules.len()
                    &&& recorded_from(res[j], iv[next[j].0], full_metadata_for_all)
                    &&& res[j].matched && rules[next[j].1].0.exit_on_match ==> exit_marked(res[j])
                } by {
                    if j < l0 {
                        assert(out@[j] == prev[j]);
                        assert(next[j] == origin[j]);
                        assert(results_view(prev)[j] == res[j]);
                    } else {
                        assert(next[j] == (i as int, idx@[j - l0]));
                    }
                }
                assert forall|j: int, l: int| 0 <= j < l < res.len() implies origin_before(
                    #[trigger] next[j],
                    #[trigger] next[l],
                ) by {
                    if l < l0 {
                        assert(next[j] == origin[j] && next[l] == origin[l]);
                    } else if j < l0 {
                        assert(next[j] == origin[j]);
                        assert(next[l].0 == i);
                    } else {
                        assert(next[j] == (i as int, idx@[j - l0]));
                        assert(next[l] == (i as int, idx@[l - l0]));
                    }
                }
                assert forall|j: int, l: int|
                    0 <= j < l < res.len() && res[j].matched && rules[next[j].1].0.exit_on_match
                        implies (#[trigger] next[j]).0 < (#[trigger] next[l]).0 by {
                    if l < l0 {
                        assert(next[j] == origin[j] && next[l] == origin[l]);
                        assert(out@[j] == prev[j]);
                        assert(results_view(prev)[j] == res[j]);
                    } else if j < l0 {
                        assert(next[j] == origin[j]);
                        assert(next[l].0 == i);
                    } else {
                        assert(next[j] == (i as int, idx@[j - l0]));
                        assert(next[l] == (i as int, idx@[l - l0]));
                        assert(idx@[j - l0] < idx@[l - l0]);
                    }
                }
                assert(recorded_in_order(rules, iv, res, next, full_metadata_for_all));
                origin = next;
                assert forall|j: int| 0 <= j < origin.len() implies (#[trigger] origin[j]).0 < i + 1 by {
                    if j >= l0 {
                        assert(origin[j] == (i as int, idx@[j - l0]));
                    }
                }
                assert(out@.len() <= (i + 1) * m) by (nonlinear_arith)
                    requires
                        out@.len() <= prev.len() + m,
                        prev.len() <= i * m,
                ;
            }
            proof {
                if rules_specified(self.rules@) {
                    let taken = iv.take(i + 1);
                    let last = (items@[i as int].0@, items@[i as int].1@);
                    assert forall|j: int| 0 <= j < m implies tally@[j] == tally_of(
                        rules,
                        j,
                        taken,
                        target,
                        full_metadata_for_all,
                    ) by {
                        lemma_error_count_bounded(rules, j, iv.take(i as int), target, full_metadata_for_all);
                        assert(taken.drop_last() =~= iv.take(i as int));
                        if rule_matches_on(rules, j, last, target, full_metadata_for_all) {
                            assert(taken[i as int] == last);
                        }
                        if matched_any(rules, j, taken, target, full_metadata_for_all) {
                            let w = choose|w: int|
                                0 <= w < taken.len() && #[trigger] rule_matches_on(
                                    rules,
                                    j,
                                    taken[w],
                                    target,
                                    full_metadata_for_all,
                                );
                            if w < i {
                                assert(iv.take(i as int)[w] == taken[w]);
                            }
                        }
                        if matched_any(rules, j, iv.take(i as int), target, full_metadata_for_all) {
                            let w = choose|w: int|
                                0 <= w < i && #[trigger] rule_matches_on(
                                    rules,
                                    j,
                                    iv.take(i as int)[w],
                                    target,
                                    full_metadata_for_all,
                                );
                            assert(taken[w] == iv.take(i as int)[w]);
                        }
                    }
                }
            }
        }
        proof {
            assert(items_view(items@).take(n as int) =~= items_view(items@));
        }
        (out, tally)
    }

    /// Runs the rules on each of the input strings, in order, and returns the results they
    /// record.
    pub fn match_items(&self, items: &Vec<(String, Metadata)>, full_metadata_for_all: bool) -> (r: Vec<
        GenericMatchResult,
    >)
        ensures
            rules_specified(self.rules@) ==> results_view(r@) == results_for_items(
                self.rules@,
                items_view(items@),
                self.string_match@,
                full_metadata_for_all,
            ),
    {
        let (out, _) = self.match_items_tallied(items, full_metadata_for_all);
        out
    }

    /// The input string, with empty metadata, as the only item before preprocessing.
    pub fn initial_items(input: &str) -> (r: Vec<(String, Metadata)>)
        ensures
            items_view(r@) == seq![(input@, Map::<Seq<char>, MetaValueView>::empty())],
    {
        let mut items: Vec<(String, Metadata)> = Vec::new();
        items.push((input.to_string(), Metadata::new()));
        assert(items_view(items@) =~= seq![(input@, Map::<Seq<char>, MetaValueView>::empty())]);
        items
    }

    /// Matches the value to this rule set and generates matches with metadata, with the tally
    /// of each rule over the preprocessed strings.
    pub fn generate_matches_tallied(
        &self,
        name: &str,
        context: &RulesetContext,
        full_metadata_for_all: bool,
    ) -> (r: (Vec<GenericMatchResult>, Vec<RuleTally>))
        requires
            context.preprocessors@.len() >= self.preprocessors@.len(),
            no_regex_scan(context.preprocessors@),
        ensures
            r.1@.len() == self.rules@.len(),
            r.0@.len() <= preprocessed_upto(
                self.preprocessors@,
                context.preprocessors@,
                name@,
                self.preprocessors@.len() as int,
            ).len() * self.rules@.len(),
            exists|origin: Seq<(int, int)>|
                recorded_in_order(
                    self.rules@,
                    preprocessed_upto(
                        self.preprocessors@,
                        context.preprocessors@,
                        name@,
                        self.preprocessors@.len() as int,
                    ),
                    results_view(r.0@),
                    origin,
                    full_metadata_for_all,
                ),
            rules_specified(self.rules@) ==> results_view(r.0@) == self.spec_generate_matches(
                name@,
                context.preprocessors@,
                full_metadata_for_all,
            ),
            rules_specified(self.rules@) ==> forall|k: int|
                0 <= k < r.1@.len() ==> r.1@[k] == tally_of(
                    self.rules@,
                    k,
                    preprocessed_upto(
                        self.preprocessors@,
                        context.preprocessors@,
                        name@,
                        self.preprocessors@.len() as int,
                    ),
                    self.string_match@,
                    full_metadata_for_all,
                ),
    {
        let mut items = Self::initial_items(name);
        let no_hits: Vec<bool> = Vec::new();
        let n = self.preprocessors.len();
        for i in 0..n
            invariant
                n == self.preprocessors.len(),
                n <= context.preprocessors@.len(),
                no_hits@ == Seq::<bool>::empty(),
                items_view(items@) == preprocessed_upto(
                    self.preprocessors@,
                    context.preprocessors@,
                    name@,
                    i as int,
                ),
        {
            items = self.preprocessors[i].process(items, &context.preprocessors[i], &no_hits);
        }
        self.match_items_tallied(&items, full_metadata_for_all)
    }

    /// Matches the value to this rule set and generates matches with metadata. A context whose
    /// regex exclusion set holds compiled patterns needs the outcome of scanning each string
    /// against them; for such a context, run [`Preprocessor::process`] with the scan outcomes,
    /// then [`RuleSet::match_items_tallied`].
    pub fn generate_matches(
        &self,
        name: &str,
        context: &RulesetContext,
        full_metadata_for_all: bool,
    ) -> (r: Vec<GenericMatchResult>)
        requires
            context.preprocessors@.len() >= self.preprocessors@.len(),
            no_regex_scan(context.preprocessors@),
        ensures
            r@.len() <= preprocessed_upto(
                self.preprocessors@,
                context.preprocessors@,
                name@,
                self.preprocessors@.len() as int,
            ).len() * self.rules@.len(),
            exists|origin: Seq<(int, int)>|
                recorded_in_order(
                    self.rules@,
                    preprocessed_upto(
                        self.preprocessors@,
                        context.preprocessors@,
                        name@,
                        self.preprocessors@.len() as int,
                    ),
                    results_view(r@),
                    origin,
                    full_metadata_for_all,
                ),
            rules_specified(self.rules@) ==> results_view(r@) == self.spec_generate_matches(
                name@,
                context.preprocessors@,
                full_metadata_for_all,
            ),
    {
        let (matches, _) = self.generate_matches_tallied(name, context, full_metadata_for_all);
        matches
    }
}

/// String group
#[derive(Clone)]
pub struct StringGroup<R> {
    /// Name of the group
    pub name: String,
    /// Rule sets that are in this group
    pub rule_sets: Vec<RuleSet<R>>,
}

/// Context of a string group (external state): the context of each rule set, by the rule
/// set's name.
pub struct StringGroupContext {
    /// Context of each rule set, with its name; a later entry for a name overrides an earlier
    /// one
    pub rulesets: Vec<(String, RulesetContext)>,
}

/// The context that `contexts` holds for `name`: its last entry for that name.
pub open spec fn context_for(contexts: Seq<(String, RulesetContext)>, name: Seq<char>) -> Option<
    RulesetContext,
>
    decreases contexts.len(),
{
    if contexts.len() == 0 {
        None
    } else if contexts.last().0@ == name {
        Some(contexts.last().1)
    } else {
        context_for(contexts.drop_last(), name)
    }
}

/// Whether `contexts` holds a usable context for each rule set: one with a context for each
/// preprocessor, none of which needs a regex scan.
pub open spec fn contexts_cover<R>(contexts: Seq<(String, RulesetContext)>, rule_sets: Seq<RuleSet<R>>) -> bool {
    forall|k: int|
        0 <= k < rule_sets.len() ==> {
            let c = context_for(contexts, (#[trigger] rule_sets[k]).name@);
            &&& c is Some
            &&& c->Some_0.preprocessors@.len() >= rule_sets[k].preprocessors@.len()
            &&& no_regex_scan(c->Some_0.preprocessors@)
        }
}

/// The results of a string group as a map from rule set name to results, built from its
/// entries in order.
pub open spec fn group_view(entries: Seq<(String, Vec<GenericMatchResult>)>) -> Map<
    Seq<char>,
    Seq<GenericMatchView>,
>
    decreases entries.len(),
{
    if entries.len() == 0 {
        Map::empty()
    } else {
        group_view(entries.drop_last()).insert(
            entries.last().0@,
            results_view(entries.last().1@),
        )
    }
}

/// Whether no two entries have the same name.
pub open spec fn names_distinct(entries: Seq<(String, Vec<GenericMatchResult>)>) -> bool {
    forall|i: int, j: int|
        0 <= i < entries.len() && 0 <= j < entries.len() && i != j ==> (#[trigger] entries[i]).0@
            != (#[trigger] entries[j]).0@
}

/// The results a string group records for `input`, by rule set name: the results of each
/// rule set, kept when there are any or when `full_metadata_for_all` is set (a later rule set
/// of the same name overrides an earlier one).
pub open spec fn group_matches_upto<R: GenericMatcherRule>(
    rule_sets: Seq<RuleSet<R>>,
    contexts: Seq<(String, RulesetContext)>,
    input: Seq<char>,
    full_metadata_for_all: bool,
    k: int,
) -> Map<Seq<char>, Seq<GenericMatchView>>
    decreases k,
{
    if k <= 0 {
        Map::empty()
    } else {
        let prev = group_matches_upto(rule_sets, contexts, input, full_metadata_for_all, k - 1);
        let rs = rule_sets[k - 1];
        let res = rs.spec_generate_matches(
            input,
            context_for(contexts, rs.name@)->Some_0.preprocessors@,
            full_metadata_for_all,
        );
        if res.len() > 0 || full_metadata_for_all {
            prev.insert(rs.name@, res)
        } else {
            prev
        }
    }
}

/// Replacing the value of an entry of a list with distinct names updates the map at its
/// name.
proof fn lemma_group_view_update(
    entries: Seq<(String, Vec<GenericMatchResult>)>,
    i: int,
    value: Vec<GenericMatchResult>,
)
    requires
        names_distinct(entries),
        0 <= i < entries.len(),
    ensures
        group_view(entries.update(i, (entries[i].0, value))) == group_view(entries).insert(
            entries[i].0@,
            results_view(value@),
        ),
    decreases entries.len(),
{
    let updated = entries.update(i, (entries[i].0, value));
    assert(updated.drop_last() =~= if i == entries.len() - 1 {
        entries.drop_last()
    } else {
        entries.drop_last().update(i, (entries[i].0, value))
    });
    if i < entries.len() - 1 {
        assert(names_distinct(entries.drop_last())) by {
            assert forall|a: int, b: int|
                0 <= a < entries.drop_last().len() && 0 <= b < entries.drop_last().len() && a
                    != b implies (#[trigger] entries.drop_last()[a]).0@ != (
            #[trigger] entries.drop_last()[b]).0@ by {
                assert(entries.drop_last()[a] == entries[a]);
                assert(entries.drop_last()[b] == entries[b]);
            }
        }
        lemma_group_view_update(entries.drop_last(), i, value);
        assert(entries[i].0@ != entries[entries.len() - 1].0@);
    }
    assert(group_view(updated) =~= group_view(entries).insert(
        entries[i].0@,
        results_view(value@),
    ));
}

/// Records the results of the rule set `name` in a string group's results: they are kept when
/// there are any, or when `full_metadata_for_all` is set; otherwise the entries stay as they
/// are.
pub fn record_rule_set_results(
    entries: &mut Vec<(String, Vec<GenericMatchResult>)>,
    name: String,
    results: Vec<GenericMatchResult>,
    full_metadata_for_all: bool,
)
    requires
        names_distinct(old(entries)@),
    ensures
        names_distinct(final(entries)@),
        group_view(final(entries)@) == if results@.len() > 0 || full_metadata_for_all {
            group_view(old(entries)@).insert(name@, results_view(results@))
        } else {
            group_view(old(entries)@)
        },
{
    if results.len() > 0 || full_metadata_for_all {
        set_results(entries, name, results);
    }
}

/// Sets the results of the rule set `name`, replacing earlier results of that name.
pub fn set_results(
    entries: &mut Vec<(String, Vec<GenericMatchResult>)>,
    name: String,
    results: Vec<GenericMatchResult>,
)
    requires
        names_distinct(old(entries)@),
    ensures
        names_distinct(final(entries)@),
        group_view(final(entries)@) == group_view(old(entries)@).insert(name@, results_view(results@)),
{
    let n = entries.len();
    for i in 0..n
        invariant
            n == entries.len(),
            entries@ == old(entries)@,
            names_distinct(entries@),
            forall|j: int| 0 <= j < i ==> entries@[j].0@ != name@,
    {
        if str_eq(entries[i].0.as_str(), name.as_str()) {
            proof {
                lemma_group_view_update(entries@, i as int, results);
            }
            let ghost before = entries@;
            let key = entries[i].0.clone();
            entries.set(i, (key, results));
            proof {
                assert(entries@ == before.update(i as int, (before[i as int].0, results)));
                assert forall|a: int, b: int|
                    0 <= a < entries@.len() && 0 <= b < entries@.len() && a
                        != b implies (#[trigger] entries@[a]).0@ != (#[trigger] entries@[b]).0@ by {
                    assert(entries@[a].0@ == before[a].0@);
                    assert(entries@[b].0@ == before[b].0@);
                }
            }
            return;
        }
    }
    let ghost before = entries@;
    entries.push((name, results));
    proof {
        assert(entries@.drop_last() =~= before);
        assert forall|a: int, b: int|
            0 <= a < entries@.len() && 0 <= b < entries@.len() && a != b implies (
        #[trigger] entries@[a]).0@ != (#[trigger] entries@[b]).0@ by {
            if a < n && b < n {
                assert(entries@[a] == before[a]);
                assert(entries@[b] == before[b]);
            } else if a < n {
                assert(entries@[a] == before[a]);
            } else {
                assert(entries@[b] == before[b]);
            }
        }
    }
}

impl StringGroupContext {
    /// Creates a new string group context, with configured context for each rule set
    pub fn new<R: GenericMatcherRule>(string_group: &StringGroup<R>) -> (r: Self)
        ensures
            r.rulesets@.len() == string_group.rule_sets@.len(),
            forall|k: int|
                0 <= k < r.rulesets@.len() ==> (#[trigger] r.rulesets@[k]).0@
                    == string_group.rule_sets@[k].name@ && contexts_built_for(
                    string_group.rule_sets@[k].preprocessors@,
                    r.rulesets@[k].1.preprocessors@,
                ),
    {
        let mut rulesets: Vec<(String, RulesetContext)> = Vec::new();
        let n = string_group.rule_sets.len();
        for i in 0..n
            invariant
                n == string_group.rule_sets.len(),
                rulesets@.len() == i,
                forall|k: int|
                    0 <= k < i ==> (#[trigger] rulesets@[k]).0@ == string_group.rule_sets@[k].name@
                        && contexts_built_for(
                        string_group.rule_sets@[k].preprocessors@,
                        rulesets@[k].1.preprocessors@,
                    ),
        {
            let rs = &string_group.rule_sets[i];
            rulesets.push((rs.name.clone(), rs.build_context()));
        }
        StringGroupContext { rulesets }
    }

    /// The context of the rule set `name`, if there is one.
    pub fn get(&self, name: &str) -> (r: Option<&RulesetContext>)
        ensures
            match context_for(self.rulesets@, name@) {
                Some(c) => r == Some(&c),
                None => r is None,
            },
    {
        let mut i = self.rulesets.len();
        assert(self.rulesets@.take(i as int) =~= self.rulesets@);
        while i > 0
            invariant
                i <= self.rulesets.len(),
                context_for(self.rulesets@, name@) == context_for(self.rulesets@.take(i as int), name@),
            decreases i,
        {
            let ghost prefix = self.rulesets@.take(i as int);
            assert(prefix.drop_last() =~= self.rulesets@.take(i - 1));
            if str_eq(self.rulesets[i - 1].0.as_str(), name) {
                return Some(&self.rulesets[i - 1].1);
            }
            i = i - 1;
        }
        None
    }
}

impl<R: GenericMatcherRule> StringGroup<R> {
    /// Creates a new string group with given name and rule sets
    pub fn new(name: String, rule_sets: Vec<RuleSet<R>>) -> (r: Self)
        ensures
            r.name@ == name@,
            r.rule_sets@ == rule_sets@,
    {
        StringGroup { name: name.clone(), rule_sets }
    }

    /// Whether `context` holds, for each rule set, a context with one entry per preprocessor
    /// of which none needs a regex scan, as [`StringGroup::generate_matches`] requires.
    pub fn can_generate_matches(&self, context: &StringGroupContext) -> (r: bool)
        ensures
            r == contexts_cover(context.rulesets@, self.rule_sets@),
    {
        let n = self.rule_sets.len();
        for k in 0..n
            invariant
                n == self.rule_sets.len(),
                forall|j: int|
                    0 <= j < k ==> {
                        let c = context_for(context.rulesets@, (#[trigger] self.rule_sets@[j]).name@);
                        &&& c is Some
                        &&& c->Some_0.preprocessors@.len() >= self.rule_sets@[j].preprocessors@.len()
                        &&& no_regex_scan(c->Some_0.preprocessors@)
                    },
        {
            let rs = &self.rule_sets[k];
            match context.get(rs.name.as_str()) {
                None => {
                    return false;
                },
                Some(c) => {
                    if c.preprocessors.len() < rs.preprocessors.len() {
                        return false;
                    }
                    let m = c.preprocessors.len();
                    for p in 0..m
                        invariant
                            m == c.preprocessors.len(),
                            k < n,
                            n == self.rule_sets.len(),
                            *rs == self.rule_sets@[k as int],
                            context_for(context.rulesets@, rs.name@) == Some(*c),
                            forall|q: int|
                                0 <= q < p ==> !(#[trigger] c.preprocessors@[q]).spec_needs_regex_scan(),
                    {
                        if c.preprocessors[p].needs_regex_scan() {
                            proof {
                                assert(!no_regex_scan(c.preprocessors@));
                                assert(self.rule_sets@[k as int] == *rs);
                            }
                            return false;
                        }
                    }
                },
            }
        }
        true
    }

    /// Matches the value to this string group and generates matches with metadata, by rule set
    /// name.
    pub fn generate_matches(
        &self,
        input: &str,
        context: &StringGroupContext,
        full_metadata_for_all: bool,
    ) -> (r: Vec<(String, Vec<GenericMatchResult>)>)
        requires
            contexts_cover(context.rulesets@, self.rule_sets@),
        ensures
            names_distinct(r@),
            forall|name: Seq<char>|
                #[trigger] group_view(r@).contains_key(name) ==> group_entry_recorded(
                    self.rule_sets@,
                    context.rulesets@,
                    input@,
                    full_metadata_for_all,
                    name,
                    group_view(r@)[name],
                ),
            full_metadata_for_all ==> forall|k: int|
                0 <= k < self.rule_sets@.len() ==> group_view(r@).contains_key(
                    (#[trigger] self.rule_sets@[k]).name@,
                ),
            rule_sets_specified(self.rule_sets@) ==> group_view(r@) == group_matches_upto(
                self.rule_sets@,
                context.rulesets@,
                input@,
                full_metadata_for_all,
                self.rule_sets@.len() as int,
            ),
    {
        let mut matches: Vec<(String, Vec<GenericMatchResult>)> = Vec::new();
        let n = self.rule_sets.len();
        for i in 0..n
            invariant
                n == self.rule_sets.len(),
                contexts_cover(context.rulesets@, self.rule_sets@),
                names_distinct(matches@),
                forall|name: Seq<char>|
                    #[trigger] group_view(matches@).contains_key(name) ==> group_entry_recorded(
                        self.rule_sets@,
                        context.rulesets@,
                        input@,
                        full_metadata_for_all,
                        name,
                        group_view(matches@)[name],
                    ),
                full_metadata_for_all ==> forall|k: int|
                    0 <= k < i ==> group_view(matches@).contains_key(
                        (#[trigger] self.rule_sets@[k]).name@,
                    ),
                rule_sets_specified(self.rule_sets@) ==> group_view(matches@) == group_matches_upto(
                    self.rule_sets@,
                    context.rulesets@,
                    input@,
                    full_metadata_for_all,
                    i as int,
                ),
        {
            let rule_set = &self.rule_sets[i];
            assert(context_for(context.rulesets@, self.rule_sets@[i as int].name@) is Some);
            let rule_set_context = match context.get(rule_set.name.as_str()) {
                Some(c) => c,
                None => {
                    proof {
                        assert(false);
                    }
                    return matches;
                },
            };
            let rule_set_matches = rule_set.generate_matches(
                input,
                rule_set_context,
                full_metadata_for_all,
            );
            let ghost before = group_view(matches@);
            let ghost listed = results_view(rule_set_matches@);
            let ghost name_i = rule_set.name@;
            proof {
                if listed.len() > 0 || full_metadata_for_all {
                    assert(self.rule_sets@[i as int] == *rule_set);
                    assert(group_entry_recorded(
                        self.rule_sets@,
                        context.rulesets@,
                        input@,
                        full_metadata_for_all,
                        name_i,
                        listed,
                    ));
                }
            }
            record_rule_set_results(
                &mut matches,
                rule_set.name.clone(),
                rule_set_matches,
                full_metadata_for_all,
            );
            proof {
                assert forall|name: Seq<char>|
                    #[trigger] group_view(matches@).contains_key(name) implies group_entry_recorded(
                        self.rule_sets@,
                        context.rulesets@,
                        input@,
                        full_metadata_for_all,
                        name,
                        group_view(matches@)[name],
                    ) by {
                    if name != name_i || !(listed.len() > 0 || full_metadata_for_all) {
                        assert(before.contains_key(name));
                        assert(group_view(matches@)[name] == before[name]);
                    }
                }
                if full_metadata_for_all {
                    assert forall|k: int| 0 <= k < i + 1 implies group_view(matches@).contains_key(
                        (#[trigger] self.rule_sets@[k]).name@,
                    ) by {
                        if k < i {
                            assert(before.contains_key(self.rule_sets@[k].name@));
                        }
                    }
                }
            }
        }
        matches
    }
}

/// Whether `results`, listed under `name` by a string group, are those of one of its rule sets
/// of that name: non-empty unless `full_metadata_for_all` is set, and recorded in order by that
/// rule set's rules for the strings its preprocessors make of `input`.
pub open spec fn group_entry_recorded<R>(
    rule_sets: Seq<RuleSet<R>>,
    contexts: Seq<(String, RulesetContext)>,
    input: Seq<char>,
    full_metadata_for_all: bool,
    name: Seq<char>,
    results: Seq<GenericMatchView>,
) -> bool {
    exists|k: int|
        0 <= k < rule_sets.len() && (#[trigger] rule_sets[k]).name@ == name && (results.len() > 0
            || full_metadata_for_all) && exists|origin: Seq<(int, int)>|
            recorded_in_order(
                rule_sets[k].rules@,
                preprocessed_upto(
                    rule_sets[k].preprocessors@,
                    context_for(contexts, name)->Some_0.preprocessors@,
                    input,
                    rule_sets[k].preprocessors@.len() as int,
                ),
                results,
                origin,
                full_metadata_for_all,
            )
}

/// Whether some result of some rule set is a match.
pub open spec fn any_match(results: Map<Seq<char>, Seq<GenericMatchView>>) -> bool {
    exists|name: Seq<char>, j: int|
        #![trigger results[name][j]]
        results.contains_key(name) && 0 <= j < results[name].len() && results[name][j].matched
}

/// Trait for results of StringGroup
pub trait StringGroupMatchResult {
    /// Returns true if there were any matches in this group
    fn has_matches(&self) -> bool;
}

impl StringGroupMatchResult for Vec<(String, Vec<GenericMatchResult>)> {
    fn has_matches(&self) -> (r: bool)
        ensures
            r == exists|a: int, j: int|
                0 <= a < self@.len() && 0 <= j < self@[a].1@.len() && (#[trigger] self@[a].1@[j]).matched,
            names_distinct(self@) ==> r == any_match(group_view(self@)),
    {
        let n = self.len();
        for i in 0..n
            invariant
                n == self.len(),
                forall|a: int, j: int|
                    0 <= a < i && 0 <= j < self@[a].1@.len() ==> !(#[trigger] self@[a].1@[j]).matched,
        {
            let results = &self[i].1;
            let m = results.len();
            for j in 0..m
                invariant
                    n == self.len(),
                    i < n,
                    results == &self@[i as int].1,
                    m == results@.len(),
                    forall|a: int, b: int|
                        0 <= a < i && 0 <= b < self@[a].1@.len() ==> !(
                        #[trigger] self@[a].1@[b]).matched,
                    forall|b: int| 0 <= b < j ==> !(#[trigger] results@[b]).matched,
            {
                if results[j].matched {
                    assert(self@[i as int].1@[j as int].matched);
                    proof {
                        if names_distinct(self@) {
                            lemma_group_view_lookup(self@, i as int);
                            let name = self@[i as int].0@;
                            assert(group_view(self@)[name][j as int].matched);
                        }
                    }
                    return true;
                }
            }
        }
        proof {
            if names_distinct(self@) {
                assert forall|name: Seq<char>, j: int|
                    group_view(self@).contains_key(name) && 0 <= j < group_view(
                        self@,
                    )[name].len() implies !(#[trigger] group_view(self@)[name][j]).matched by {
                    let a = lemma_group_view_member(self@, name);
                    assert(self@[a].1@[j].gview() == group_view(self@)[name][j]);
                }
            }
        }
        false
    }
}

/// In a list with distinct names, an entry's results are what the map holds for its name.
proof fn lemma_group_view_lookup(entries: Seq<(String, Vec<GenericMatchResult>)>, i: int)
    requires
        names_distinct(entries),
        0 <= i < entries.len(),
    ensures
        group_view(entries).contains_key(entries[i].0@),
        group_view(entries)[entries[i].0@] == results_view(entries[i].1@),
    decreases entries.len(),
{
    if i < entries.len() - 1 {
        assert(names_distinct(entries.drop_last())) by {
            assert forall|a: int, b: int|
                0 <= a < entries.drop_last().len() && 0 <= b < entries.drop_last().len() && a
                    != b implies (#[trigger] entries.drop_last()[a]).0@ != (
            #[trigger] entries.drop_last()[b]).0@ by {
                assert(entries.drop_last()[a] == entries[a]);
                assert(entries.drop_last()[b] == entries[b]);
            }
        }
        lemma_group_view_lookup(entries.drop_last(), i);
        assert(entries.drop_last()[i] == entries[i]);
        assert(entries[i].0@ != entries[entries.len() - 1].0@);
    }
}

/// Every name in the map is the name of an entry, whose results the map holds.
proof fn lemma_group_view_member(entries: Seq<(String, Vec<GenericMatchResult>)>, name: Seq<char>) -> (i: int)
    requires
        names_distinct(entries),
        group_view(entries).contains_key(name),
    ensures
        0 <= i < entries.len(),
        entries[i].0@ == name,
        group_view(entries)[name] == results_view(entries[i].1@),
    decreases entries.len(),
{
    if entries.last().0@ == name {
        lemma_group_view_lookup(entries, entries.len() - 1);
        entries.len() - 1
    } else {
        assert(names_distinct(entries.drop_last())) by {
            assert forall|a: int, b: int|
                0 <= a < entries.drop_last().len() && 0 <= b < entries.drop_last().len() && a
                    != b implies (#[trigger] entries.drop_last()[a]).0@ != (
            #[trigger] entries.drop_last()[b]).0@ by {
                assert(entries.drop_last()[a] == entries[a]);
                assert(entries.drop_last()[b] == entries[b]);
            }
        }
        let i = lemma_group_view_member(entries.drop_last(), name);
        assert(entries.drop_last()[i] == entries[i]);
        i
    }
}

/// The results recorded for one input string, from the `k`-th rule on, are matches unless
/// `full_metadata_for_all` is set, and each says in its metadata whether it matched and which
/// rule made it.
proof fn lemma_rule_results_shape<R: GenericMatcherRule>(
    rules: Seq<(CommonRuleConfig, R)>,
    k: int,
    item: ItemView,
    target: Seq<char>,
    full_metadata_for_all: bool,
)
    ensures
        forall|j: int|
            0 <= j < rule_results_from(rules, k, item, target, full_metadata_for_all).len()
                ==> recorded_shape(
                #[trigger] rule_results_from(rules, k, item, target, full_metadata_for_all)[j],
                full_metadata_for_all,
            ),
    decreases rules.len() - k,
{
    if 0 <= k < rules.len() {
        lemma_rule_results_shape(rules, k + 1, item, target, full_metadata_for_all);
        let rest = rule_results_from(rules, k + 1, item, target, full_metadata_for_all);
        match rules[k].1.spec_outcome(item.0, target, full_metadata_for_all) {
            None => {},
            Some(v) => {
                let entry = recorded_view(v, item.1);
                reveal_strlit("match");
                reveal_strlit("rule_type");
                reveal_strlit("early_match_exit");
                assert("match"@.len() != "rule_type"@.len());
                assert("match"@.len() != "early_match_exit"@.len());
                assert("rule_type"@.len() != "early_match_exit"@.len());
                assert(entry.metadata.contains_key("match"@));
                assert(entry.metadata["match"@] == MetaValueView::Bool(v.matched));
                assert(entry.metadata.contains_key("rule_type"@));
                assert(entry.metadata["rule_type"@] == MetaValueView::Str(v.rule_type));
                if v.matched && rules[k].0.exit_on_match {
                    assert(recorded_shape(early_exit_view(entry), full_metadata_for_all));
                } else if v.matched || full_metadata_for_all {
                    assert(recorded_shape(entry, full_metadata_for_all));
                    let all = seq![entry] + rest;
                    assert forall|j: int| 0 <= j < all.len() implies recorded_shape(
                        #[trigger] all[j],
                        full_metadata_for_all,
                    ) by {
                        if j > 0 {
                            assert(all[j] == rest[j - 1]);
                        }
                    }
                }
            },
        }
    }
}

/// A recorded result is a match unless `full_metadata_for_all` is set, and its metadata says
/// whether it matched and which rule made it.
pub open spec fn recorded_shape(v: GenericMatchView, full_metadata_for_all: bool) -> bool {
    &&& (full_metadata_for_all || v.matched)
    &&& v.metadata.contains_key("match"@)
    &&& v.metadata["match"@] == MetaValueView::Bool(v.matched)
    &&& v.metadata.contains_key("rule_type"@)
    &&& v.metadata["rule_type"@] == MetaValueView::Str(v.rule_type)
}

/// Every result a rule set records for any list of input strings is a match unless
/// `full_metadata_for_all` is set, and its metadata says whether it matched (`match`) and
/// which rule made it (`rule_type`).
pub proof fn lemma_recorded_results_shape<R: GenericMatcherRule>(
    rules: Seq<(CommonRuleConfig, R)>,
    items: Seq<ItemView>,
    target: Seq<char>,
    full_metadata_for_all: bool,
)
    ensures
        forall|j: int|
            0 <= j < results_for_items(rules, items, target, full_metadata_for_all).len()
                ==> recorded_shape(
                #[trigger] results_for_items(rules, items, target, full_metadata_for_all)[j],
                full_metadata_for_all,
            ),
    decreases items.len(),
{
    if items.len() > 0 {
        lemma_recorded_results_shape(rules, items.drop_last(), target, full_metadata_for_all);
        lemma_rule_results_shape(rules, 0, items.last(), target, full_metadata_for_all);
        let a = results_for_items(rules, items.drop_last(), target, full_metadata_for_all);
        let b = rule_results_from(rules, 0, items.last(), target, full_metadata_for_all);
        assert forall|j: int| 0 <= j < (a + b).len() implies recorded_shape(
            #[trigger] (a + b)[j],
            full_metadata_for_all,
        ) by {
            if j < a.len() {
                assert((a + b)[j] == a[j]);
            } else {
                assert((a + b)[j] == b[j - a.len()]);
            }
        }
    }
}

/// A string group lists a rule set exactly when the rule set recorded results, or for every
/// rule set when `full_metadata_for_all` is set; without it, every listed rule set has at
/// least one match.
pub proof fn lemma_group_lists_rule_sets<R: GenericMatcherRule>(
    rule_sets: Seq<RuleSet<R>>,
    contexts: Seq<(String, RulesetContext)>,
    input: Seq<char>,
    full_metadata_for_all: bool,
    k: int,
)
    requires
        0 <= k <= rule_sets.len(),
    ensures
        full_metadata_for_all ==> forall|i: int|
            0 <= i < k ==> group_matches_upto(
                rule_sets,
                contexts,
                input,
                full_metadata_for_all,
                k,
            ).contains_key((#[trigger] rule_sets[i]).name@),
        forall|name: Seq<char>|
            #[trigger] group_matches_upto(
                rule_sets,
                contexts,
                input,
                full_metadata_for_all,
                k,
            ).contains_key(name) ==> group_matches_upto(
                rule_sets,
                contexts,
                input,
                full_metadata_for_all,
                k,
            )[name].len() > 0 || full_metadata_for_all,
        !full_metadata_for_all ==> forall|name: Seq<char>|
            #[trigger] group_matches_upto(
                rule_sets,
                contexts,
                input,
                full_metadata_for_all,
                k,
            ).contains_key(name) ==> group_matches_upto(
                rule_sets,
                contexts,
                input,
                full_metadata_for_all,
                k,
            )[name][0].matched,
    decreases k,
{
    if k > 0 {
        lemma_group_lists_rule_sets(rule_sets, contexts, input, full_metadata_for_all, k - 1);
        let rs = rule_sets[k - 1];
        let c = context_for(contexts, rs.name@)->Some_0.preprocessors@;
        let items = preprocessed_upto(rs.preprocessors@, c, input, rs.preprocessors@.len() as int);
        lemma_recorded_results_shape(rs.rules@, items, rs.string_match@, full_metadata_for_all);
        let res = rs.spec_generate_matches(input, c, full_metadata_for_all);
        let prev = group_matches_upto(rule_sets, contexts, input, full_metadata_for_all, k - 1);
        let cur = group_matches_upto(rule_sets, contexts, input, full_metadata_for_all, k);
        if res.len() > 0 {
            assert(recorded_shape(res[0], full_metadata_for_all));
        }
        assert forall|name: Seq<char>| #[trigger] cur.contains_key(name) implies (cur[name].len() > 0
            || full_metadata_for_all) && (!full_metadata_for_all ==> cur[name][0].matched) by {
            if name != rs.name@ || !(res.len() > 0 || full_metadata_for_all) {
                assert(prev.contains_key(name));
                assert(cur[name] == prev[name]);
            }
        }
    }
}

} // verus!

verus! {

/// Whether none of `preprocessors` is an exclusion set of regex patterns given as a static
/// list (whose context holds a compiled database that needs a scan).
pub open spec fn no_static_regex_set(preprocessors: Seq<Preprocessor>) -> bool {
    forall|i: int|
        0 <= i < preprocessors.len() ==> !((#[trigger] preprocessors[i]) matches Preprocessor::ExclusionSet(c)
            && c.regex && c.source is Static)
}

/// In a list of contexts with distinct names, the context for an entry's name is that entry's.
proof fn lemma_context_for_entry(contexts: Seq<(String, RulesetContext)>, k: int)
    requires
        0 <= k < contexts.len(),
        forall|a: int, b: int|
            0 <= a < contexts.len() && 0 <= b < contexts.len() && a != b ==> (#[trigger] contexts[a]).0@
                != (#[trigger] contexts[b]).0@,
    ensures
        context_for(contexts, contexts[k].0@) == Some(contexts[k].1),
    decreases contexts.len(),
{
    if k < contexts.len() - 1 {
        assert(contexts.last() == contexts[contexts.len() - 1]);
        let rest = contexts.drop_last();
        assert(rest[k] == contexts[k]);
        assert forall|a: int, b: int|
            0 <= a < rest.len() && 0 <= b < rest.len() && a != b implies (#[trigger] rest[a]).0@
                != (#[trigger] rest[b]).0@ by {
            assert(rest[a] == contexts[a] && rest[b] == contexts[b]);
        }
        lemma_context_for_entry(rest, k);
    }
}

/// The contexts that [`StringGroupContext::new`] builds for a string group whose rule sets
/// have distinct names and no static regex exclusion set are what
/// [`StringGroup::generate_matches`] needs: each rule set finds its own context, with a context
/// for each preprocessor, none of which needs a regex scan.
pub proof fn lemma_built_contexts_cover<R>(
    rule_sets: Seq<RuleSet<R>>,
    contexts: Seq<(String, RulesetContext)>,
)
    requires
        contexts.len() == rule_sets.len(),
        forall|k: int|
            0 <= k < contexts.len() ==> (#[trigger] contexts[k]).0@ == rule_sets[k].name@
                && contexts_built_for(rule_sets[k].preprocessors@, contexts[k].1.preprocessors@),
        forall|a: int, b: int|
            0 <= a < rule_sets.len() && 0 <= b < rule_sets.len() && a != b ==> (#[trigger] rule_sets[a]).name@
                != (#[trigger] rule_sets[b]).name@,
        forall|k: int| 0 <= k < rule_sets.len() ==> no_static_regex_set((#[trigger] rule_sets[k]).preprocessors@),
    ensures
        contexts_cover(contexts, rule_sets),
{
    assert forall|a: int, b: int|
        0 <= a < contexts.len() && 0 <= b < contexts.len() && a != b implies (#[trigger] contexts[a]).0@
            != (#[trigger] contexts[b]).0@ by {
        assert(rule_sets[a].name@ != rule_sets[b].name@);
    }
    assert forall|k: int| 0 <= k < rule_sets.len() implies {
        let c = context_for(contexts, (#[trigger] rule_sets[k]).name@);
        &&& c is Some
        &&& c->Some_0.preprocessors@.len() >= rule_sets[k].preprocessors@.len()
        &&& no_regex_scan(c->Some_0.preprocessors@)
    } by {
        assert(contexts[k].0@ == rule_sets[k].name@);
        lemma_context_for_entry(contexts, k);
        let ps = rule_sets[k].preprocessors@;
        let cs = contexts[k].1.preprocessors@;
        assert forall|i: int| 0 <= i < cs.len() implies !(#[trigger] cs[i]).spec_needs_regex_scan() by {
            assert(context_built_for(ps[i], cs[i]));
            assert(!(ps[i] matches Preprocessor::ExclusionSet(c) && c.regex && c.source is Static));
        }
    }
}

} // verus!

verus! {

/// The results a rule set records for `input` with the context its name finds in `contexts`.
pub open spec fn rule_set_results<R: GenericMatcherRule>(
    rule_set: RuleSet<R>,
    contexts: Seq<(String, RulesetContext)>,
    input: Seq<char>,
    full_metadata_for_all: bool,
) -> Seq<GenericMatchView> {
    rule_set.spec_generate_matches(
        input,
        context_for(contexts, rule_set.name@)->Some_0.preprocessors@,
        full_metadata_for_all,
    )
}

/// A string group whose rule sets have distinct names lists each rule set, whatever the others
/// record, exactly when that rule set records results (or always, when
/// `full_metadata_for_all` is set), and lists under its name exactly the results it records;
/// it lists no other name.
pub proof fn lemma_group_lists_each_rule_set_by_its_own_results<R: GenericMatcherRule>(
    rule_sets: Seq<RuleSet<R>>,
    contexts: Seq<(String, RulesetContext)>,
    input: Seq<char>,
    full_metadata_for_all: bool,
    j: int,
)
    requires
        0 <= j <= rule_sets.len(),
        forall|a: int, b: int|
            0 <= a < rule_sets.len() && 0 <= b < rule_sets.len() && a != b ==> (#[trigger] rule_sets[a]).name@
                != (#[trigger] rule_sets[b]).name@,
    ensures
        forall|name: Seq<char>|
            #[trigger] group_matches_upto(
                rule_sets,
                contexts,
                input,
                full_metadata_for_all,
                j,
            ).contains_key(name) ==> exists|i: int| 0 <= i < j && (#[trigger] rule_sets[i]).name@ == name,
        forall|k: int|
            0 <= k < j ==> {
                let listed = group_matches_upto(rule_sets, contexts, input, full_metadata_for_all, j);
                let own = rule_set_results(#[trigger] rule_sets[k], contexts, input, full_metadata_for_all);
                &&& listed.contains_key(rule_sets[k].name@) == (own.len() > 0 || full_metadata_for_all)
                &&& listed.contains_key(rule_sets[k].name@) ==> listed[rule_sets[k].name@] == own
            },
    decreases j,
{
    if j > 0 {
        lemma_group_lists_each_rule_set_by_its_own_results(
            rule_sets,
            contexts,
            input,
            full_metadata_for_all,
            j - 1,
        );
        let prev = group_matches_upto(rule_sets, contexts, input, full_metadata_for_all, j - 1);
        let last = rule_sets[j - 1];
        let res = rule_set_results(last, contexts, input, full_metadata_for_all);
        let now = group_matches_upto(rule_sets, contexts, input, full_metadata_for_all, j);
        assert forall|name: Seq<char>| #[trigger] now.contains_key(name) implies exists|i: int|
            0 <= i < j && (#[trigger] rule_sets[i]).name@ == name by {
            if name == last.name@ {
                assert(rule_sets[j - 1].name@ == name);
            } else {
                assert(prev.contains_key(name));
                let i = choose|i: int| 0 <= i < j - 1 && (#[trigger] rule_sets[i]).name@ == name;
                assert(rule_sets[i].name@ == name);
            }
        }
        assert forall|k: int| 0 <= k < j implies {
            let own = rule_set_results(#[trigger] rule_sets[k], contexts, input, full_metadata_for_all);
            &&& now.contains_key(rule_sets[k].name@) == (own.len() > 0 || full_metadata_for_all)
            &&& now.contains_key(rule_sets[k].name@) ==> now[rule_sets[k].name@] == own
        } by {
            if k < j - 1 {
                assert(rule_sets[k].name@ != rule_sets[j - 1].name@);
            } else {
                if prev.contains_key(last.name@) {
                    let i = choose|i: int| 0 <= i < j - 1 && (#[trigger] rule_sets[i]).name@ == last.name@;
                    assert(rule_sets[i].name@ != rule_sets[j - 1].name@);
                }
            }
        }
    }
}

} // verus!
