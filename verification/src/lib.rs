//! Building blocks of a string similarity rule engine: matcher rules, the results they
//! produce, preprocessors that prepare input strings, and rule sets that tie them together.

use vstd::prelude::*;

pub mod config;
pub mod metadata;
pub mod preprocessors;
pub mod rule;
pub mod rules;
pub mod ruleset;
pub mod text;

use crate::metadata::{MetaValue, MetaValueView, Metadata};

verus! {

/// General match result.
pub struct MatchResult<T> {
    /// Rule type used to generate this result
    pub rule_type: String,
    /// Whether the matcher has successfully matched the target string
    pub matched: bool,
    /// Metadata related to the specific rule
    pub metadata: T,
}

/// Outcome of a rule matcher: a match result, or the error the matcher ran into.
pub type MatcherResult<T, E> = Result<MatchResult<T>, E>;

/// Match result whose metadata is held as generic key/value metadata.
pub type GenericMatchResult = MatchResult<Metadata>;

/// Outcome of a generic rule matcher.
pub type GenericMatcherResult = Result<GenericMatchResult, Error>;

/// Errors produced by matcher rules.
pub enum Error {
    /// The metaphone matcher was given input it cannot encode.
    Metaphone(crate::rules::metaphone::MetaphoneError),
    /// The rule does not accept this input (for example, non-ASCII text for an encoder that
    /// only handles ASCII).
    UnsupportedInput {
        /// Name of the rule that refused the input
        rule: String,
        /// The refused input
        input: String,
    },
}

impl<T> MatchResult<T> {
    /// Creates a new successful match
    pub fn new_match(rule_type: String, metadata: T) -> (r: Self)
        ensures
            r.rule_type == rule_type,
            r.matched,
            r.metadata == metadata,
    {
        Self { rule_type, matched: true, metadata }
    }

    /// Creates a new failed match
    pub fn new_no_match(rule_type: String, metadata: T) -> (r: Self)
        ensures
            r.rule_type == rule_type,
            !r.matched,
            r.metadata == metadata,
    {
        Self { rule_type, matched: false, metadata }
    }
}

/// Abstract view of a generic match result.
pub struct GenericMatchView {
    pub rule_type: Seq<char>,
    pub matched: bool,
    pub metadata: Map<Seq<char>, MetaValueView>,
}

impl GenericMatchResult {
    /// The abstract value of this result.
    pub open spec fn gview(&self) -> GenericMatchView {
        GenericMatchView {
            rule_type: self.rule_type@,
            matched: self.matched,
            metadata: self.metadata@,
        }
    }

    /// Adds the `match` and `rule_type` entries to the metadata.
    pub fn into_full_metadata(self) -> (r: GenericMatchResult)
        ensures
            r.rule_type@ == self.rule_type@,
            r.matched == self.matched,
            r.metadata@ == self.metadata@.insert("match"@, MetaValueView::Bool(self.matched)).insert(
                "rule_type"@,
                MetaValueView::Str(self.rule_type@),
            ),
    {
        let mut metadata = self.metadata;
        metadata.insert(String::from_str("match"), MetaValue::Bool(self.matched));
        let rule_type = self.rule_type;
        metadata.insert(String::from_str("rule_type"), MetaValue::Str(rule_type.clone()));
        MatchResult { rule_type, matched: self.matched, metadata }
    }
}

} // verus!

verus! {

/// I/O error type of the standard library, used as the error type of rules that never fail.
#[verifier::external_type_specification]
#[verifier::external_body]
pub struct ExIoError(std::io::Error);

} // verus!
