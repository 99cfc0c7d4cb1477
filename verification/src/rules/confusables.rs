//! IDN confusables rule implementation
use vstd::prelude::*;

use crate::metadata::{MetaValueView, Metadata};
use crate::rule::{MatcherResultRuleMetadataExt, MatcherRule, RuleMetadata};
use crate::text::str_eq;
use crate::MatcherResult;

verus! {

/// Whether `input`, with its confusable characters replaced by the plain characters they
/// imitate, equals `other`, as `Confusable::is_confusable_with` of the `confusables` crate
/// computes it.
pub uninterp spec fn is_confusable_with(input: Seq<char>, other: Seq<char>) -> bool;

/// `Confusable::is_confusable_with` of the `confusables` crate.
///
/// Trusted: the answer depends on the two strings alone (the crate replaces each confusable
/// character of `input` by a fixed table, then compares with `other`) and is named
/// [`is_confusable_with`]; the table itself is not stated.
#[verifier::external_body]
fn confusable_with(input: &str, other: &str) -> (r: bool)
    ensures
        r == is_confusable_with(input@, other@),
{
    confusables::Confusable::is_confusable_with(&input, other)
}

/// Rule
#[derive(Clone, Copy)]
pub struct ConfusablesRule;

/// metadata
#[derive(Clone, Copy)]
pub struct ConfusablesMetadata;

impl RuleMetadata for ConfusablesMetadata {
    open spec fn spec_rule_name() -> Seq<char> {
        "confusables"@
    }

    fn rule_name() -> (r: &'static str) {
        "confusables"
    }

    open spec fn spec_generic(&self) -> Map<Seq<char>, MetaValueView> {
        Map::empty()
    }

    fn to_generic(&self) -> (r: Metadata) {
        Metadata::new()
    }
}

/// Whether the confusables rule matches: `input` imitates `target` without being `target`.
pub open spec fn confusables_match(input: Seq<char>, target: Seq<char>) -> bool {
    is_confusable_with(input, target) && input != target
}

impl MatcherRule for ConfusablesRule {
    type OutputMetadata = ConfusablesMetadata;
    type Error = std::io::Error;

    open spec fn accepts(&self, input_str: &str, target_str: &str) -> bool {
        true
    }

    fn check_accepts(&self, input_str: &str, target_str: &str) -> (r: bool) {
        true
    }

    fn match_rule(&self, input_str: &str, target_str: &str) -> (r: MatcherResult<
        ConfusablesMetadata,
        std::io::Error,
    >)
        ensures
            r is Ok,
            r->Ok_0.rule_type@ == "confusables"@,
            r->Ok_0.matched == confusables_match(input_str@, target_str@),
    {
        let metadata = ConfusablesMetadata;
        let confusable = confusable_with(input_str, target_str);
        if confusable && !str_eq(target_str, input_str) {
            MatcherResult::new_match(metadata)
        } else {
            MatcherResult::new_no_match(metadata)
        }
    }
}

/// A string is never reported as imitating itself, whatever the confusables table says.
pub proof fn lemma_identical_strings_never_match(s: Seq<char>)
    ensures
        !confusables_match(s, s),
{
}

} // verus!
