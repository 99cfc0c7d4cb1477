//! Regex rule implementation
use vstd::prelude::*;

use crate::metadata::{MetaValueView, Metadata};
use crate::rule::{MatcherResultRuleMetadataExt, MatcherRule, RuleMetadata};
use crate::MatcherResult;

verus! {

/// Whether `regex::Regex::new` compiles `pattern` (with the crate's default limits).
pub uninterp spec fn regex_compiles(pattern: Seq<char>) -> bool;

/// Whether the compiled `pattern` matches somewhere in `input`, as `regex::Regex::is_match`
/// computes it.
pub uninterp spec fn regex_matches(pattern: Seq<char>, input: Seq<char>) -> bool;

/// A compiled regular expression: a `regex::Regex`.
#[verifier::external_body]
pub struct CompiledRegex {
    regex: regex::Regex,
}

/// The pattern a [`CompiledRegex`] was compiled from.
pub uninterp spec fn compiled_pattern(regex: CompiledRegex) -> Seq<char>;

impl CompiledRegex {
    /// `regex::Regex::new`, with the crate's error turned into its message.
    ///
    /// Trusted: whether the pattern compiles depends on the pattern alone and is named
    /// [`regex_compiles`]; the compiled expression keeps its pattern. Nothing is stated of the
    /// message.
    #[verifier::external_body]
    fn compile(pattern: &str) -> (r: Result<CompiledRegex, String>)
        ensures
            (r is Ok) <==> regex_compiles(pattern@),
            r matches Ok(c) ==> compiled_pattern(c) == pattern@,
    {
        match regex::Regex::new(pattern) {
            Ok(regex) => Ok(CompiledRegex { regex }),
            Err(e) => Err(e.to_string()),
        }
    }

    /// `regex::Regex::is_match`.
    ///
    /// Trusted: the answer depends on the pattern and the input alone and is named
    /// [`regex_matches`].
    #[verifier::external_body]
    fn is_match(&self, input: &str) -> (r: bool)
        ensures
            r == regex_matches(compiled_pattern(*self), input@),
    {
        self.regex.is_match(input)
    }

    /// `Clone::clone` of `regex::Regex`.
    ///
    /// Trusted: the copy is compiled from the same pattern.
    #[verifier::external_body]
    fn duplicate(&self) -> (r: CompiledRegex)
        ensures
            compiled_pattern(r) == compiled_pattern(*self),
    {
        CompiledRegex { regex: self.regex.clone() }
    }
}

/// Regex rule errors
pub enum RegexBuildError {
    /// Regex rule compilation error
    RegexCompilationError {
        /// Message of the regex error.
        source: String,
    },
}

/// Rule: matches inputs in which the pattern matches.
pub struct RegexRule {
    regex: CompiledRegex,
    pattern: String,
}

impl RegexRule {
    /// The compiled expression is the pattern's.
    #[verifier::type_invariant]
    spec fn regex_is_pattern(self) -> bool {
        compiled_pattern(self.regex) == self.pattern@
    }

    /// The pattern of the rule.
    pub closed spec fn pattern(&self) -> Seq<char> {
        self.pattern@
    }

    /// Creates a new instance of [`RegexRule`], with compiled pattern.
    pub fn new(pattern: String) -> (r: Result<RegexRule, RegexBuildError>)
        ensures
            (r is Ok) <==> regex_compiles(pattern@),
            r matches Ok(rule) ==> rule.pattern() == pattern@,
    {
        match CompiledRegex::compile(pattern.as_str()) {
            Ok(regex) => Ok(RegexRule { regex, pattern }),
            Err(source) => Err(RegexBuildError::RegexCompilationError { source }),
        }
    }

    /// The pattern of the rule.
    pub fn pattern_str(&self) -> (r: &str)
        ensures
            r@ == self.pattern(),
    {
        self.pattern.as_str()
    }
}

impl Clone for RegexRule {
    fn clone(&self) -> (r: Self)
        ensures
            r.pattern() == self.pattern(),
    {
        proof {
            use_type_invariant(self);
        }
        RegexRule { regex: self.regex.duplicate(), pattern: self.pattern.clone() }
    }
}

/// metadata
#[derive(Clone, Copy)]
pub struct RegexMetadata;

impl RuleMetadata for RegexMetadata {
    open spec fn spec_rule_name() -> Seq<char> {
        "regex"@
    }

    fn rule_name() -> (r: &'static str) {
        "regex"
    }

    open spec fn spec_generic(&self) -> Map<Seq<char>, MetaValueView> {
        Map::empty()
    }

    fn to_generic(&self) -> (r: Metadata) {
        Metadata::new()
    }
}

impl MatcherRule for RegexRule {
    type OutputMetadata = RegexMetadata;
    type Error = std::io::Error;

    open spec fn accepts(&self, input_str: &str, target_str: &str) -> bool {
        true
    }

    fn check_accepts(&self, input_str: &str, target_str: &str) -> (r: bool) {
        true
    }

    fn match_rule(&self, input_str: &str, target_str: &str) -> (r: MatcherResult<
        RegexMetadata,
        std::io::Error,
    >)
        ensures
            r is Ok,
            r->Ok_0.rule_type@ == "regex"@,
            r->Ok_0.matched == regex_matches(self.pattern(), input_str@),
    {
        proof {
            use_type_invariant(self);
        }
        if self.regex.is_match(input_str) {
            MatcherResult::new_match(RegexMetadata)
        } else {
            MatcherResult::new_no_match(RegexMetadata)
        }
    }
}

} // verus!
