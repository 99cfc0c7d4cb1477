//! Matcher rules: the interface every rule implements and helpers for building results.
use vstd::prelude::*;

use crate::metadata::Metadata;
use crate::{Error, GenericMatchResult, GenericMatchView, MatchResult, MatcherResult};

verus! {

/// Helper functions for rule matcher results.
pub trait MatcherResultExt<T, E>: Sized {
    /// Whether the result is successful.
    spec fn spec_is_ok(&self) -> bool;

    /// Creates a new error.
    fn new_error(err: E) -> Self;

    /// Returns true only if the result is successful and a match.
    fn is_match(&self) -> bool;

    /// Returns the metadata of a successful result.
    fn into_metadata(self) -> T
        requires
            self.spec_is_ok(),
    ;
}

/// Helper functions for creating rule matcher results.
pub trait MatcherResultRuleMetadataExt<T, E>: Sized {
    /// Creates a new successful match result.
    fn new_match(metadata: T) -> Self;

    /// Creates a new successful no-match result.
    fn new_no_match(metadata: T) -> Self;
}

/// Helper for creating rule matcher results without metadata, when metadata is not needed.
pub trait MatcherResultRuleOptionMetadataExt<T, E>: Sized {
    /// Creates a new successful no-match result, without metadata.
    fn new_no_match_no_metadata() -> Self;
}

impl<T, E> MatcherResultExt<T, E> for MatcherResult<T, E> {
    open spec fn spec_is_ok(&self) -> bool {
        self is Ok
    }

    fn new_error(err: E) -> (r: Self)
        ensures
            r == Err::<MatchResult<T>, E>(err),
    {
        Err(err)
    }

    fn is_match(&self) -> (r: bool)
        ensures
            r == (self is Ok && self->Ok_0.matched),
    {
        match self {
            Ok(res) => res.matched,
            Err(_) => false,
        }
    }

    fn into_metadata(self) -> (r: T)
        ensures
            r == self->Ok_0.metadata,
    {
        match self {
            Ok(res) => res.metadata,
            Err(_) => { proof { assert(false); } unreached() },
        }
    }
}

impl<T: RuleMetadata, E> MatcherResultRuleMetadataExt<T, E> for MatcherResult<T, E> {
    fn new_match(metadata: T) -> (r: Self)
        ensures
            r is Ok,
            r->Ok_0.rule_type@ == T::spec_rule_name(),
            r->Ok_0.matched,
            r->Ok_0.metadata == metadata,
    {
        Ok(MatchResult::new_match(String::from_str(T::rule_name()), metadata))
    }

    fn new_no_match(metadata: T) -> (r: Self)
        ensures
            r is Ok,
            r->Ok_0.rule_type@ == T::spec_rule_name(),
            !r->Ok_0.matched,
            r->Ok_0.metadata == metadata,
    {
        Ok(MatchResult::new_no_match(String::from_str(T::rule_name()), metadata))
    }
}

impl<T: RuleMetadata, E> MatcherResultRuleMetadataExt<T, E> for MatcherResult<Option<T>, E> {
    fn new_match(metadata: T) -> (r: Self)
        ensures
            r is Ok,
            r->Ok_0.rule_type@ == T::spec_rule_name(),
            r->Ok_0.matched,
            r->Ok_0.metadata == Some(metadata),
    {
        Ok(MatchResult::new_match(String::from_str(T::rule_name()), Some(metadata)))
    }

    fn new_no_match(metadata: T) -> (r: Self)
        ensures
            r is Ok,
            r->Ok_0.rule_type@ == T::spec_rule_name(),
            !r->Ok_0.matched,
            r->Ok_0.metadata == Some(metadata),
    {
        Ok(MatchResult::new_no_match(String::from_str(T::rule_name()), Some(metadata)))
    }
}

impl<T: RuleMetadata, E> MatcherResultRuleOptionMetadataExt<T, E> for MatcherResult<
    Option<T>,
    E,
> {
    fn new_no_match_no_metadata() -> (r: Self)
        ensures
            r is Ok,
            r->Ok_0.rule_type@ == T::spec_rule_name(),
            !r->Ok_0.matched,
            r->Ok_0.metadata == None::<T>,
    {
        Ok(MatchResult::new_no_match(String::from_str(T::rule_name()), None))
    }
}

/// Trait for all metadata objects of matcher rules.
pub trait RuleMetadata: Sized {
    /// Name of the rule, as a sequence of characters.
    spec fn spec_rule_name() -> Seq<char>;

    /// Name of the rule.
    fn rule_name() -> (r: &'static str)
        ensures
            r@ == Self::spec_rule_name(),
    ;

    /// The metadata as generic key/value metadata.
    spec fn spec_generic(&self) -> Map<Seq<char>, crate::metadata::MetaValueView>;

    /// Converts the metadata into generic key/value metadata.
    fn to_generic(&self) -> (r: Metadata)
        ensures
            r@ == self.spec_generic(),
    ;
}

impl<T: RuleMetadata> RuleMetadata for Option<T> {
    open spec fn spec_rule_name() -> Seq<char> {
        T::spec_rule_name()
    }

    fn rule_name() -> (r: &'static str) {
        T::rule_name()
    }

    open spec fn spec_generic(&self) -> Map<Seq<char>, crate::metadata::MetaValueView> {
        match self {
            Some(m) => m.spec_generic(),
            None => Map::empty(),
        }
    }

    fn to_generic(&self) -> (r: Metadata) {
        match self {
            Some(m) => m.to_generic(),
            None => Metadata::new(),
        }
    }
}

/// Interface of a matcher rule. A rule compares an input string with a target string.
pub trait MatcherRule {
    /// Additional data for matches.
    type OutputMetadata: RuleMetadata;
    /// Error type of the matcher (negative matches are not errors).
    type Error;

    /// The inputs that this rule handles: those on which the outside routine it calls runs to
    /// the end (it panics on the others), and for which the length bounds of that routine
    /// hold.
    spec fn accepts(&self, input_str: &str, target_str: &str) -> bool;

    /// Whether this rule handles the given inputs.
    fn check_accepts(&self, input_str: &str, target_str: &str) -> (r: bool)
        ensures
            r == self.accepts(input_str, target_str),
    ;

    /// Tries to match the input string to the target string using this rule.
    fn match_rule(&self, input_str: &str, target_str: &str) -> MatcherResult<
        Self::OutputMetadata,
        Self::Error,
    >
        requires
            self.accepts(input_str, target_str),
    ;
}

/// Generic matcher rule: a rule whose results carry generic key/value metadata, so that rules
/// of different kinds can be held together.
pub trait GenericMatcherRule {
    /// Whether the rule states its behaviour through [`GenericMatcherRule::spec_name`] and
    /// [`GenericMatcherRule::spec_outcome`]. Every rule of this library does; a rule
    /// implemented elsewhere that keeps the defaults promises nothing.
    open spec fn specified(&self) -> bool {
        false
    }

    /// Name of the rule.
    open spec fn spec_name(&self) -> Seq<char> {
        Seq::empty()
    }

    /// The outcome of matching `input` against `target`: `None` when the rule fails with an
    /// error.
    open spec fn spec_outcome(&self, input: Seq<char>, target: Seq<char>, full_metadata_for_all: bool) -> Option<GenericMatchView> {
        None
    }

    /// Name of the rule.
    fn name(&self) -> (r: String)
        ensures
            self.specified() ==> r@ == self.spec_name(),
    ;

    /// Tries to match the input string to the target string using this rule. Metadata of a
    /// mismatch is left empty unless `full_metadata_for_all` is set.
    fn match_rule_generic(&self, input_str: &str, target_str: &str, full_metadata_for_all: bool) -> (r: Result<GenericMatchResult, Error>)
        ensures
            self.specified() ==> match self.spec_outcome(input_str@, target_str@, full_metadata_for_all) {
                Some(v) => r is Ok && r->Ok_0.gview() == v,
                None => r is Err,
            },
    ;
}

/// The generic view of a rule outcome: the metadata is kept for matches, and for mismatches
/// only when `full_metadata_for_all` is set.
pub open spec fn outcome_view(
    rule_type: Seq<char>,
    matched: bool,
    metadata: Map<Seq<char>, crate::metadata::MetaValueView>,
    full_metadata_for_all: bool,
) -> GenericMatchView {
    GenericMatchView {
        rule_type,
        matched,
        metadata: if matched || full_metadata_for_all {
            metadata
        } else {
            Map::empty()
        },
    }
}

/// The generic outcome of a rule result.
pub open spec fn generic_view_of<T: RuleMetadata>(r: MatchResult<T>, full_metadata_for_all: bool) -> GenericMatchView {
    outcome_view(r.rule_type@, r.matched, r.metadata.spec_generic(), full_metadata_for_all)
}

/// Converts a rule result into a generic result.
pub fn into_generic_result<T: RuleMetadata>(r: MatchResult<T>, full_metadata_for_all: bool) -> (g: GenericMatchResult)
    ensures
        g.gview() == generic_view_of(r, full_metadata_for_all),
{
    let metadata = if r.matched || full_metadata_for_all {
        r.metadata.to_generic()
    } else {
        Metadata::new()
    };
    MatchResult { rule_type: r.rule_type, matched: r.matched, metadata }
}

/// Example matcher: matches when the input contains the target.
#[derive(Clone, Copy)]
pub struct ExampleRule;

/// Metadata of [`ExampleRule`].
pub struct ExampleMetadata;

impl RuleMetadata for ExampleMetadata {
    open spec fn spec_rule_name() -> Seq<char> {
        "example"@
    }

    fn rule_name() -> (r: &'static str) {
        "example"
    }

    open spec fn spec_generic(&self) -> Map<Seq<char>, crate::metadata::MetaValueView> {
        Map::empty()
    }

    fn to_generic(&self) -> (r: Metadata) {
        Metadata::new()
    }
}

impl MatcherRule for ExampleRule {
    type OutputMetadata = ExampleMetadata;
    type Error = Error;

    open spec fn accepts(&self, input_str: &str, target_str: &str) -> bool {
        true
    }

    fn check_accepts(&self, input_str: &str, target_str: &str) -> (r: bool) {
        true
    }

    fn match_rule(&self, input_str: &str, target_str: &str) -> (r: MatcherResult<ExampleMetadata, Error>)
        ensures
            r is Ok,
            r->Ok_0.rule_type@ == "example"@,
            r->Ok_0.matched == crate::text::is_substring(target_str@, input_str@),
    {
        if crate::text::contains_str(input_str, target_str) {
            MatcherResult::new_match(ExampleMetadata)
        } else {
            MatcherResult::new_no_match(ExampleMetadata)
        }
    }
}

} // verus!
