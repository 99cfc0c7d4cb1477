//! Rule implementations, and the minimal single-string rule interface.
use vstd::prelude::*;

pub mod any_rule;
pub mod bitflip;
pub mod confusables;
pub mod damerau_levenshtein;
pub mod hamming;
pub mod levenshtein;
pub mod match_rating;
pub mod metaphone;
pub mod nysiis;
pub mod regex;
pub mod soundex;

verus! {

/// Matching result of a single-string rule.
pub enum MatcherResult<T, E> {
    /// Positive match
    Match(T),
    /// Negative match
    NoMatch,
    /// Error in the matching process
    Error(E),
}

impl<T, E> MatcherResult<T, E> {
    /// Turns the result into an optional value: `Some` for a match, `None` for no match.
    pub fn into_option_result(self) -> (r: Result<Option<T>, E>)
        ensures
            match self {
                MatcherResult::Match(t) => r == Ok::<Option<T>, E>(Some(t)),
                MatcherResult::NoMatch => r == Ok::<Option<T>, E>(None),
                MatcherResult::Error(e) => r == Err::<Option<T>, E>(e),
            },
    {
        match self {
            MatcherResult::Match(res) => Ok(Some(res)),
            MatcherResult::NoMatch => Ok(None),
            MatcherResult::Error(err) => Err(err),
        }
    }
}

/// A rule that matches a single string against the rule's own target.
pub trait MatcherRule {
    /// Additional data for positive matches
    type OutputMetadata;
    /// Error type of the matcher (negative matches are not errors)
    type Error;

    /// Tries to match the string to this rule.
    fn match_rule(&self, target_str: &str) -> MatcherResult<Self::OutputMetadata, Self::Error>;
}

/// Example single-string rule: matches strings that contain `target_match`.
pub struct ExampleRule {
    /// The text that a matching string contains
    pub target_match: String,
}

impl MatcherRule for ExampleRule {
    type OutputMetadata = ();
    type Error = ();

    fn match_rule(&self, target_str: &str) -> (r: MatcherResult<(), ()>)
        ensures
            crate::text::is_substring(self.target_match@, target_str@) ==> r is Match,
            !crate::text::is_substring(self.target_match@, target_str@) ==> r is NoMatch,
    {
        if crate::text::contains_str(target_str, self.target_match.as_str()) {
            MatcherResult::Match(())
        } else {
            MatcherResult::NoMatch
        }
    }
}

} // verus!
