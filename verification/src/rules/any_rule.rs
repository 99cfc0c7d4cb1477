//! Generic matchers: every rule as a [`GenericMatcherRule`], and [`AnyRule`], which holds a
//! rule of any kind so that rules of different kinds can be kept together.
use vstd::prelude::*;
use vstd::utf8::{decode_utf8, encode_utf8};

use crate::metadata::MetaValueView;
use crate::rule::{
    into_generic_result, outcome_view, ExampleRule, GenericMatcherRule, MatcherRule, RuleMetadata,
};
use crate::rules::bitflip::{bitflip_cache, BitflipRule};
use crate::rules::confusables::{confusables_match, ConfusablesRule};
use crate::rules::damerau_levenshtein::{
    rdamerau_distance, substring_outcome, DamerauLevenshteinMetadata, DamerauLevenshteinRule,
    DamerauLevenshteinSubstringRule, windows_on_boundaries,
};
use crate::rules::hamming::{hamming_distance, HammingMetadata, HammingRule};
use crate::rules::levenshtein::{
    levenshtein_distance, nat_abs_diff, LevenshteinMetadata, LevenshteinRule,
    MAX_DISTANCE_INPUT_LEN,
};
use crate::rules::match_rating::{match_rating_domain, match_rating_match, MatchRatingRule};
use crate::rules::metaphone::{
    alternate_code_for, metaphone_type_name, primary_code_for, MetaphoneError, MetaphoneRule,
    MetaphoneRuleType,
};
use crate::rules::nysiis::{nysiis_encodes, nysiis_encoding, NysiisRule};
use crate::rules::regex::{regex_matches, RegexRule};
use crate::rules::soundex::{code_similarity, encoding_for, soundex_type_name, SoundexRule};
use crate::text::{all_ascii, is_substring, letters_uppercase_to_ascii, lowercase};
use crate::{Error, GenericMatchResult, GenericMatchView};

verus! {

/// The error for input that a rule does not handle.
fn unsupported_input(rule: &str, input: &str) -> (e: Error)
    ensures
        e matches Error::UnsupportedInput { rule: r, input: i } && r@ == rule@ && i@ == input@,
{
    Error::UnsupportedInput { rule: rule.to_string(), input: input.to_string() }
}

impl ExampleRule {
    /// Name of the rule in generic results.
    pub open spec fn generic_name(&self) -> Seq<char> {
        "example"@
    }

    /// The generic result of matching `input` against `target`; `None` when the rule fails
    /// on these strings.
    pub open spec fn generic_outcome(&self, input: Seq<char>, target: Seq<char>, full: bool) -> Option<
        GenericMatchView,
    > {
        Some(outcome_view("example"@, is_substring(target, input), Map::empty(), full))
    }

    /// Tries to match the input string to the target string using this rule, with generic
    /// metadata.
    pub fn match_rule_generic(&self, input_str: &str, target_str: &str, full_metadata_for_all: bool) -> (r: Result<GenericMatchResult, Error>)
        ensures
            match self.generic_outcome(input_str@, target_str@, full_metadata_for_all) {
                Some(v) => r is Ok && r->Ok_0.gview() == v,
                None => r is Err,
            },
    {
        match self.match_rule(input_str, target_str) {
            Ok(res) => Ok(into_generic_result(res, full_metadata_for_all)),
            Err(_) => Err(unsupported_input("example", input_str)),
        }
    }
}

impl RegexRule {
    /// Name of the rule in generic results.
    pub open spec fn generic_name(&self) -> Seq<char> {
        "regex"@
    }

    /// The generic result of matching `input` against `target`; `None` when the rule fails
    /// on these strings.
    pub open spec fn generic_outcome(&self, input: Seq<char>, target: Seq<char>, full: bool) -> Option<
        GenericMatchView,
    > {
        Some(outcome_view("regex"@, regex_matches(self.pattern(), input), Map::empty(), full))
    }

    /// Tries to match the input string to the target string using this rule, with generic
    /// metadata.
    pub fn match_rule_generic(&self, input_str: &str, target_str: &str, full_metadata_for_all: bool) -> (r: Result<GenericMatchResult, Error>)
        ensures
            match self.generic_outcome(input_str@, target_str@, full_metadata_for_all) {
                Some(v) => r is Ok && r->Ok_0.gview() == v,
                None => r is Err,
            },
    {
        match self.match_rule(input_str, target_str) {
            Ok(res) => Ok(into_generic_result(res, full_metadata_for_all)),
            Err(_) => Err(unsupported_input("regex", input_str)),
        }
    }
}

impl LevenshteinRule {
    /// Name of the rule in generic results.
    pub open spec fn generic_name(&self) -> Seq<char> {
        "levenshtein"@
    }

    /// The generic result of matching `input` against `target`; `None` when the rule fails
    /// on these strings.
    pub open spec fn generic_outcome(&self, input: Seq<char>, target: Seq<char>, full: bool) -> Option<
        GenericMatchView,
    > {
        let a = encode_utf8(input);
        let b = encode_utf8(target);
        if a.len() <= MAX_DISTANCE_INPUT_LEN && b.len() <= MAX_DISTANCE_INPUT_LEN {
            let d = levenshtein_distance(a, b);
            let skipped = self.ignore_mismatch_metadata && nat_abs_diff(a.len(), b.len())
                > self.maximum_distance;
            let metadata: Option<LevenshteinMetadata> = if skipped {
                None
            } else {
                Some(LevenshteinMetadata { distance: d as u32 })
            };
            Some(outcome_view("levenshtein"@, d <= self.maximum_distance, metadata.spec_generic(), full))
        } else {
            None
        }
    }

    /// Tries to match the input string to the target string using this rule, with generic
    /// metadata.
    pub fn match_rule_generic(&self, input_str: &str, target_str: &str, full_metadata_for_all: bool) -> (r: Result<GenericMatchResult, Error>)
        ensures
            match self.generic_outcome(input_str@, target_str@, full_metadata_for_all) {
                Some(v) => r is Ok && r->Ok_0.gview() == v,
                None => r is Err,
            },
    {
        if !self.check_accepts(input_str, target_str) {
            return Err(unsupported_input("levenshtein", input_str));
        }
        match self.match_rule(input_str, target_str) {
            Ok(res) => Ok(into_generic_result(res, full_metadata_for_all)),
            Err(_) => Err(unsupported_input("levenshtein", input_str)),
        }
    }
}

impl DamerauLevenshteinRule {
    /// Name of the rule in generic results.
    pub open spec fn generic_name(&self) -> Seq<char> {
        "damerau_levenshtein"@
    }

    /// The generic result of matching `input` against `target`; `None` when the rule fails
    /// on these strings.
    pub open spec fn generic_outcome(&self, input: Seq<char>, target: Seq<char>, full: bool) -> Option<
        GenericMatchView,
    > {
        let a = encode_utf8(input);
        let b = encode_utf8(target);
        if a.len() <= MAX_DISTANCE_INPUT_LEN && b.len() <= MAX_DISTANCE_INPUT_LEN {
            let d = rdamerau_distance(a, b);
            let skipped = self.ignore_mismatch_metadata && nat_abs_diff(a.len(), b.len())
                > self.maximum_distance;
            let metadata: Option<DamerauLevenshteinMetadata> = if skipped {
                None
            } else {
                Some(DamerauLevenshteinMetadata { distance: d as u32 })
            };
            Some(
                outcome_view(
                    "damerau_levenshtein"@,
                    d <= self.maximum_distance,
                    metadata.spec_generic(),
                    full,
                ),
            )
        } else {
            None
        }
    }

    /// Tries to match the input string to the target string using this rule, with generic
    /// metadata.
    pub fn match_rule_generic(&self, input_str: &str, target_str: &str, full_metadata_for_all: bool) -> (r: Result<GenericMatchResult, Error>)
        ensures
            match self.generic_outcome(input_str@, target_str@, full_metadata_for_all) {
                Some(v) => r is Ok && r->Ok_0.gview() == v,
                None => r is Err,
            },
    {
        if !self.check_accepts(input_str, target_str) {
            return Err(unsupported_input("damerau_levenshtein", input_str));
        }
        match self.match_rule(input_str, target_str) {
            Ok(res) => Ok(into_generic_result(res, full_metadata_for_all)),
            Err(_) => Err(unsupported_input("damerau_levenshtein", input_str)),
        }
    }
}

impl DamerauLevenshteinSubstringRule {
    /// Name of the rule in generic results.
    pub open spec fn generic_name(&self) -> Seq<char> {
        "damerau_levenshtein_substring"@
    }

    /// The generic result of matching `input` against `target`; `None` when the rule fails
    /// on these strings.
    pub open spec fn generic_outcome(&self, input: Seq<char>, target: Seq<char>, full: bool) -> Option<
        GenericMatchView,
    > {
        let a = encode_utf8(input);
        let b = encode_utf8(target);
        let max = self.maximum_distance as nat;
        if a.len() <= MAX_DISTANCE_INPUT_LEN && b.len() <= MAX_DISTANCE_INPUT_LEN && (
        rdamerau_distance(a, b) > max ==> windows_on_boundaries(a, b, max, 0)) {
            let (matched, distance, part) = substring_outcome(a, b, max);
            let metadata = Map::empty().insert("distance"@, MetaValueView::UInt(distance as u32 as u64)).insert(
                "substring"@,
                match part {
                    Some(bytes) => MetaValueView::Str(decode_utf8(bytes)),
                    None => MetaValueView::Null,
                },
            );
            Some(outcome_view("damerau_levenshtein_substring"@, matched, metadata, full))
        } else {
            None
        }
    }

    /// Tries to match the input string to the target string using this rule, with generic
    /// metadata.
    pub fn match_rule_generic(&self, input_str: &str, target_str: &str, full_metadata_for_all: bool) -> (r: Result<GenericMatchResult, Error>)
        ensures
            match self.generic_outcome(input_str@, target_str@, full_metadata_for_all) {
                Some(v) => r is Ok && r->Ok_0.gview() == v,
                None => r is Err,
            },
    {
        if !self.check_accepts(input_str, target_str) {
            return Err(unsupported_input("damerau_levenshtein_substring", input_str));
        }
        match self.match_rule(input_str, target_str) {
            Ok(res) => {
                proof {
                    let m = res.metadata->Some_0;
                    if m.substring is Some {
                        vstd::utf8::encode_utf8_decode_utf8(m.substring->Some_0@);
                    }
                }
                Ok(into_generic_result(res, full_metadata_for_all))
            },
            Err(_) => Err(unsupported_input("damerau_levenshtein_substring", input_str)),
        }
    }
}

impl HammingRule {
    /// Name of the rule in generic results.
    pub open spec fn generic_name(&self) -> Seq<char> {
        "hamming"@
    }

    /// The generic result of matching `input` against `target`; `None` when the rule fails
    /// on these strings.
    pub open spec fn generic_outcome(&self, input: Seq<char>, target: Seq<char>, full: bool) -> Option<
        GenericMatchView,
    > {
        let a = encode_utf8(input);
        let b = encode_utf8(target);
        if a.len() <= u32::MAX {
            if a.len() == b.len() {
                let d = hamming_distance(a, b);
                Some(
                    outcome_view(
                        "hamming"@,
                        d <= self.maximum_distance,
                        HammingMetadata { distance: Some(d as u32) }.spec_generic(),
                        full,
                    ),
                )
            } else {
                Some(outcome_view("hamming"@, false, HammingMetadata { distance: None }.spec_generic(), full))
            }
        } else {
            None
        }
    }

    /// Tries to match the input string to the target string using this rule, with generic
    /// metadata.
    pub fn match_rule_generic(&self, input_str: &str, target_str: &str, full_metadata_for_all: bool) -> (r: Result<GenericMatchResult, Error>)
        ensures
            match self.generic_outcome(input_str@, target_str@, full_metadata_for_all) {
                Some(v) => r is Ok && r->Ok_0.gview() == v,
                None => r is Err,
            },
    {
        if !(input_str.as_bytes().len() <= 0xffff_ffffusize) {
            return Err(unsupported_input("hamming", input_str));
        }
        match self.match_rule(input_str, target_str) {
            Ok(res) => Ok(into_generic_result(res, full_metadata_for_all)),
            Err(_) => Err(unsupported_input("hamming", input_str)),
        }
    }
}

impl BitflipRule {
    /// Name of the rule in generic results.
    pub open spec fn generic_name(&self) -> Seq<char> {
        "bitflip"@
    }

    /// The generic result of matching `input` against `target`; `None` when the rule fails
    /// on these strings.
    pub open spec fn generic_outcome(&self, input: Seq<char>, target: Seq<char>, full: bool) -> Option<
        GenericMatchView,
    > {
        let key = if self.is_case_sensitive() {
            input
        } else {
            lowercase(input)
        };
        Some(
            outcome_view(
                "bitflip"@,
                bitflip_cache(target, self.valid(), self.is_case_sensitive()).contains(key),
                Map::empty(),
                full,
            ),
        )
    }

    /// Tries to match the input string to the target string using this rule, with generic
    /// metadata.
    pub fn match_rule_generic(&self, input_str: &str, target_str: &str, full_metadata_for_all: bool) -> (r: Result<GenericMatchResult, Error>)
        ensures
            match self.generic_outcome(input_str@, target_str@, full_metadata_for_all) {
                Some(v) => r is Ok && r->Ok_0.gview() == v,
                None => r is Err,
            },
    {
        match self.match_rule(input_str, target_str) {
            Ok(res) => Ok(into_generic_result(res, full_metadata_for_all)),
            Err(_) => Err(unsupported_input("bitflip", input_str)),
        }
    }
}

impl ConfusablesRule {
    /// Name of the rule in generic results.
    pub open spec fn generic_name(&self) -> Seq<char> {
        "confusables"@
    }

    /// The generic result of matching `input` against `target`; `None` when the rule fails
    /// on these strings.
    pub open spec fn generic_outcome(&self, input: Seq<char>, target: Seq<char>, full: bool) -> Option<
        GenericMatchView,
    > {
        Some(outcome_view("confusables"@, confusables_match(input, target), Map::empty(), full))
    }

    /// Tries to match the input string to the target string using this rule, with generic
    /// metadata.
    pub fn match_rule_generic(&self, input_str: &str, target_str: &str, full_metadata_for_all: bool) -> (r: Result<GenericMatchResult, Error>)
        ensures
            match self.generic_outcome(input_str@, target_str@, full_metadata_for_all) {
                Some(v) => r is Ok && r->Ok_0.gview() == v,
                None => r is Err,
            },
    {
        match self.match_rule(input_str, target_str) {
            Ok(res) => Ok(into_generic_result(res, full_metadata_for_all)),
            Err(_) => Err(unsupported_input("confusables", input_str)),
        }
    }
}

impl MatchRatingRule {
    /// Name of the rule in generic results.
    pub open spec fn generic_name(&self) -> Seq<char> {
        "match_rating"@
    }

    /// The generic result of matching `input` against `target`; `None` when the rule fails
    /// on these strings.
    pub open spec fn generic_outcome(&self, input: Seq<char>, target: Seq<char>, full: bool) -> Option<
        GenericMatchView,
    > {
        if match_rating_domain(input) {
            Some(
                outcome_view(
                    "match_rating"@,
                    match_rating_match(input, target, self.target_code()),
                    Map::empty(),
                    full,
                ),
            )
        } else {
            None
        }
    }

    /// Tries to match the input string to the target string using this rule, with generic
    /// metadata.
    pub fn match_rule_generic(&self, input_str: &str, target_str: &str, full_metadata_for_all: bool) -> (r: Result<GenericMatchResult, Error>)
        ensures
            match self.generic_outcome(input_str@, target_str@, full_metadata_for_all) {
                Some(v) => r is Ok && r->Ok_0.gview() == v,
                None => r is Err,
            },
    {
        if !self.check_accepts(input_str, target_str) {
            return Err(unsupported_input("match_rating", input_str));
        }
        match self.match_rule(input_str, target_str) {
            Ok(res) => Ok(into_generic_result(res, full_metadata_for_all)),
            Err(_) => Err(unsupported_input("match_rating", input_str)),
        }
    }
}

impl MetaphoneRule {
    /// Name of the rule in generic results.
    pub open spec fn generic_name(&self) -> Seq<char> {
        "metaphone"@
    }

    /// The generic result of matching `input` against `target`; `None` when the rule fails
    /// on these strings.
    pub open spec fn generic_outcome(&self, input: Seq<char>, target: Seq<char>, full: bool) -> Option<
        GenericMatchView,
    > {
        if all_ascii(input) {
            let primary = primary_code_for(self.kind(), self.max_length(), input);
            let alternate = alternate_code_for(self.kind(), self.max_length(), input);
            let matched = match self.kind() {
                MetaphoneRuleType::Normal => primary == self.target_primary_code(),
                MetaphoneRuleType::Double => primary == self.target_primary_code() || alternate
                    == self.target_alternate_code(),
            };
            let metadata = Map::empty().insert(
                "max_code_length"@,
                match self.max_length() {
                    Some(l) => MetaValueView::UInt(l as u64),
                    None => MetaValueView::Null,
                },
            ).insert("metaphone_type"@, MetaValueView::Str(metaphone_type_name(self.kind()))).insert(
                "primary_code"@,
                MetaValueView::Str(primary),
            ).insert(
                "alternate_code"@,
                match self.kind() {
                    MetaphoneRuleType::Normal => MetaValueView::Null,
                    MetaphoneRuleType::Double => MetaValueView::Str(alternate),
                },
            );
            Some(outcome_view("metaphone"@, matched, metadata, full))
        } else {
            None
        }
    }

    /// Tries to match the input string to the target string using this rule, with generic
    /// metadata.
    pub fn match_rule_generic(&self, input_str: &str, target_str: &str, full_metadata_for_all: bool) -> (r: Result<GenericMatchResult, Error>)
        ensures
            match self.generic_outcome(input_str@, target_str@, full_metadata_for_all) {
                Some(v) => r is Ok && r->Ok_0.gview() == v,
                None => r is Err,
            },
    {
        match self.match_rule(input_str, target_str) {
            Ok(res) => Ok(into_generic_result(res, full_metadata_for_all)),
            Err(e) => Err(Error::Metaphone(e)),
        }
    }
}

impl NysiisRule {
    /// Name of the rule in generic results.
    pub open spec fn generic_name(&self) -> Seq<char> {
        "nysiis"@
    }

    /// The generic result of matching `input` against `target`; `None` when the rule fails
    /// on these strings.
    pub open spec fn generic_outcome(&self, input: Seq<char>, target: Seq<char>, full: bool) -> Option<
        GenericMatchView,
    > {
        if nysiis_encodes(self.strict, input) && nysiis_encodes(self.strict, target) {
            let code = nysiis_encoding(self.strict, input);
            Some(
                outcome_view(
                    "nysiis"@,
                    code == nysiis_encoding(self.strict, target),
                    Map::empty().insert("encoded"@, MetaValueView::Str(code)),
                    full,
                ),
            )
        } else {
            None
        }
    }

    /// Tries to match the input string to the target string using this rule, with generic
    /// metadata.
    pub fn match_rule_generic(&self, input_str: &str, target_str: &str, full_metadata_for_all: bool) -> (r: Result<GenericMatchResult, Error>)
        ensures
            match self.generic_outcome(input_str@, target_str@, full_metadata_for_all) {
                Some(v) => r is Ok && r->Ok_0.gview() == v,
                None => r is Err,
            },
    {
        if !self.check_accepts(input_str, target_str) {
            return Err(unsupported_input("nysiis", input_str));
        }
        match self.match_rule(input_str, target_str) {
            Ok(res) => Ok(into_generic_result(res, full_metadata_for_all)),
            Err(_) => Err(unsupported_input("nysiis", input_str)),
        }
    }
}

impl SoundexRule {
    /// Name of the rule in generic results.
    pub open spec fn generic_name(&self) -> Seq<char> {
        "soundex"@
    }

    /// The generic result of matching `input` against `target`; `None` when the rule fails
    /// on these strings.
    pub open spec fn generic_outcome(&self, input: Seq<char>, target: Seq<char>, full: bool) -> Option<
        GenericMatchView,
    > {
        if self.target_code().len() == 0 || letters_uppercase_to_ascii(input) {
            let similarity = code_similarity(encoding_for(self.kind(), input), self.target_code());
            let metadata = Map::empty().insert(
                "similarity"@,
                MetaValueView::UInt(similarity as usize as u64),
            ).insert("soundex_type"@, MetaValueView::Str(soundex_type_name(self.kind())));
            Some(outcome_view("soundex"@, similarity >= self.min_similarity(), metadata, full))
        } else {
            None
        }
    }

    /// Tries to match the input string to the target string using this rule, with generic
    /// metadata.
    pub fn match_rule_generic(&self, input_str: &str, target_str: &str, full_metadata_for_all: bool) -> (r: Result<GenericMatchResult, Error>)
        ensures
            match self.generic_outcome(input_str@, target_str@, full_metadata_for_all) {
                Some(v) => r is Ok && r->Ok_0.gview() == v,
                None => r is Err,
            },
    {
        if !self.check_accepts(input_str, target_str) {
            return Err(unsupported_input("soundex", input_str));
        }
        match self.match_rule(input_str, target_str) {
            Ok(res) => Ok(into_generic_result(res, full_metadata_for_all)),
            Err(_) => Err(unsupported_input("soundex", input_str)),
        }
    }
}

/// Conversion of a rule into a rule of any kind, so that rules of different kinds can be held
/// together.
pub trait IntoGenericMatcherRule: Sized {
    /// Converts this rule into a rule of any kind that holds it.
    fn into_generic_matcher(self) -> AnyRule;
}

/// A matcher rule of any kind.
#[derive(Clone)]
pub enum AnyRule {
    /// Bitflip rule
    Bitflip(BitflipRule),
    /// Confusables rule
    Confusables(ConfusablesRule),
    /// Damerau-Levenshtein rule
    DamerauLevenshtein(DamerauLevenshteinRule),
    /// Example rule
    Example(ExampleRule),
    /// Damerau-Levenshtein substring rule
    DamerauLevenshteinSubstring(DamerauLevenshteinSubstringRule),
    /// Hamming rule
    Hamming(HammingRule),
    /// Levenshtein rule
    Levenshtein(LevenshteinRule),
    /// Match Rating rule
    MatchRating(MatchRatingRule),
    /// Metaphone rule
    Metaphone(MetaphoneRule),
    /// NYSIIS rule
    Nysiis(NysiisRule),
    /// Regex rule
    Regex(RegexRule),
    /// Soundex rule
    Soundex(SoundexRule),
}

impl GenericMatcherRule for AnyRule {
    open spec fn specified(&self) -> bool {
        true
    }

    open spec fn spec_name(&self) -> Seq<char> {
        match self {
            AnyRule::Bitflip(r) => r.generic_name(),
            AnyRule::Confusables(r) => r.generic_name(),
            AnyRule::DamerauLevenshtein(r) => r.generic_name(),
            AnyRule::Example(r) => r.generic_name(),
            AnyRule::DamerauLevenshteinSubstring(r) => r.generic_name(),
            AnyRule::Hamming(r) => r.generic_name(),
            AnyRule::Levenshtein(r) => r.generic_name(),
            AnyRule::MatchRating(r) => r.generic_name(),
            AnyRule::Metaphone(r) => r.generic_name(),
            AnyRule::Nysiis(r) => r.generic_name(),
            AnyRule::Regex(r) => r.generic_name(),
            AnyRule::Soundex(r) => r.generic_name(),
        }
    }

    open spec fn spec_outcome(&self, input: Seq<char>, target: Seq<char>, full: bool) -> Option<
        GenericMatchView,
    > {
        match self {
            AnyRule::Bitflip(r) => r.generic_outcome(input, target, full),
            AnyRule::Confusables(r) => r.generic_outcome(input, target, full),
            AnyRule::DamerauLevenshtein(r) => r.generic_outcome(input, target, full),
            AnyRule::Example(r) => r.generic_outcome(input, target, full),
            AnyRule::DamerauLevenshteinSubstring(r) => r.generic_outcome(input, target, full),
            AnyRule::Hamming(r) => r.generic_outcome(input, target, full),
            AnyRule::Levenshtein(r) => r.generic_outcome(input, target, full),
            AnyRule::MatchRating(r) => r.generic_outcome(input, target, full),
            AnyRule::Metaphone(r) => r.generic_outcome(input, target, full),
            AnyRule::Nysiis(r) => r.generic_outcome(input, target, full),
            AnyRule::Regex(r) => r.generic_outcome(input, target, full),
            AnyRule::Soundex(r) => r.generic_outcome(input, target, full),
        }
    }

    fn name(&self) -> (r: String) {
        match self {
            AnyRule::Bitflip(_) => String::from_str("bitflip"),
            AnyRule::Confusables(_) => String::from_str("confusables"),
            AnyRule::DamerauLevenshtein(_) => String::from_str("damerau_levenshtein"),
            AnyRule::Example(_) => String::from_str("example"),
            AnyRule::DamerauLevenshteinSubstring(_) => String::from_str("damerau_levenshtein_substring"),
            AnyRule::Hamming(_) => String::from_str("hamming"),
            AnyRule::Levenshtein(_) => String::from_str("levenshtein"),
            AnyRule::MatchRating(_) => String::from_str("match_rating"),
            AnyRule::Metaphone(_) => String::from_str("metaphone"),
            AnyRule::Nysiis(_) => String::from_str("nysiis"),
            AnyRule::Regex(_) => String::from_str("regex"),
            AnyRule::Soundex(_) => String::from_str("soundex"),
        }
    }

    fn match_rule_generic(&self, input_str: &str, target_str: &str, full_metadata_for_all: bool) -> (r: Result<GenericMatchResult, Error>) {
        match self {
            AnyRule::Bitflip(r) => r.match_rule_generic(input_str, target_str, full_metadata_for_all),
            AnyRule::Confusables(r) => r.match_rule_generic(input_str, target_str, full_metadata_for_all),
            AnyRule::DamerauLevenshtein(r) => r.match_rule_generic(input_str, target_str, full_metadata_for_all),
            AnyRule::Example(r) => r.match_rule_generic(input_str, target_str, full_metadata_for_all),
            AnyRule::DamerauLevenshteinSubstring(r) => r.match_rule_generic(input_str, target_str, full_metadata_for_all),
            AnyRule::Hamming(r) => r.match_rule_generic(input_str, target_str, full_metadata_for_all),
            AnyRule::Levenshtein(r) => r.match_rule_generic(input_str, target_str, full_metadata_for_all),
            AnyRule::MatchRating(r) => r.match_rule_generic(input_str, target_str, full_metadata_for_all),
            AnyRule::Metaphone(r) => r.match_rule_generic(input_str, target_str, full_metadata_for_all),
            AnyRule::Nysiis(r) => r.match_rule_generic(input_str, target_str, full_metadata_for_all),
            AnyRule::Regex(r) => r.match_rule_generic(input_str, target_str, full_metadata_for_all),
            AnyRule::Soundex(r) => r.match_rule_generic(input_str, target_str, full_metadata_for_all),
        }
    }
}

} // verus!

verus! {

impl IntoGenericMatcherRule for BitflipRule {
    fn into_generic_matcher(self) -> (r: AnyRule)
        ensures
            r == AnyRule::Bitflip(self),
    {
        AnyRule::Bitflip(self)
    }
}

impl IntoGenericMatcherRule for ConfusablesRule {
    fn into_generic_matcher(self) -> (r: AnyRule)
        ensures
            r == AnyRule::Confusables(self),
    {
        AnyRule::Confusables(self)
    }
}

impl IntoGenericMatcherRule for DamerauLevenshteinRule {
    fn into_generic_matcher(self) -> (r: AnyRule)
        ensures
            r == AnyRule::DamerauLevenshtein(self),
    {
        AnyRule::DamerauLevenshtein(self)
    }
}

impl IntoGenericMatcherRule for DamerauLevenshteinSubstringRule {
    fn into_generic_matcher(self) -> (r: AnyRule)
        ensures
            r == AnyRule::DamerauLevenshteinSubstring(self),
    {
        AnyRule::DamerauLevenshteinSubstring(self)
    }
}

impl IntoGenericMatcherRule for ExampleRule {
    fn into_generic_matcher(self) -> (r: AnyRule)
        ensures
            r == AnyRule::Example(self),
    {
        AnyRule::Example(self)
    }
}

impl IntoGenericMatcherRule for HammingRule {
    fn into_generic_matcher(self) -> (r: AnyRule)
        ensures
            r == AnyRule::Hamming(self),
    {
        AnyRule::Hamming(self)
    }
}

impl IntoGenericMatcherRule for LevenshteinRule {
    fn into_generic_matcher(self) -> (r: AnyRule)
        ensures
            r == AnyRule::Levenshtein(self),
    {
        AnyRule::Levenshtein(self)
    }
}

impl IntoGenericMatcherRule for MatchRatingRule {
    fn into_generic_matcher(self) -> (r: AnyRule)
        ensures
            r == AnyRule::MatchRating(self),
    {
        AnyRule::MatchRating(self)
    }
}

impl IntoGenericMatcherRule for MetaphoneRule {
    fn into_generic_matcher(self) -> (r: AnyRule)
        ensures
            r == AnyRule::Metaphone(self),
    {
        AnyRule::Metaphone(self)
    }
}

impl IntoGenericMatcherRule for NysiisRule {
    fn into_generic_matcher(self) -> (r: AnyRule)
        ensures
            r == AnyRule::Nysiis(self),
    {
        AnyRule::Nysiis(self)
    }
}

impl IntoGenericMatcherRule for RegexRule {
    fn into_generic_matcher(self) -> (r: AnyRule)
        ensures
            r == AnyRule::Regex(self),
    {
        AnyRule::Regex(self)
    }
}

impl IntoGenericMatcherRule for SoundexRule {
    fn into_generic_matcher(self) -> (r: AnyRule)
        ensures
            r == AnyRule::Soundex(self),
    {
        AnyRule::Soundex(self)
    }
}

} // verus!

verus! {

/// Skipping mismatch metadata changes no Levenshtein outcome: with either setting the rule
/// matches exactly when the distance is within the maximum, and any distance it reports is the
/// true Levenshtein distance (for inputs within the length bound of the distance routine).
pub proof fn lemma_levenshtein_metadata_setting_keeps_outcome(
    maximum_distance: u32,
    input: Seq<char>,
    target: Seq<char>,
    full: bool,
)
    requires
        encode_utf8(input).len() <= MAX_DISTANCE_INPUT_LEN,
        encode_utf8(target).len() <= MAX_DISTANCE_INPUT_LEN,
    ensures
        ({
            let d = levenshtein_distance(encode_utf8(input), encode_utf8(target));
            let skipping = LevenshteinRule { maximum_distance, ignore_mismatch_metadata: true };
            let keeping = LevenshteinRule { maximum_distance, ignore_mismatch_metadata: false };
            let a = skipping.generic_outcome(input, target, full);
            let b = keeping.generic_outcome(input, target, full);
            &&& a is Some && b is Some
            &&& a->Some_0.matched == (d <= maximum_distance)
            &&& b->Some_0.matched == (d <= maximum_distance)
            &&& a->Some_0.metadata.contains_key("distance"@) ==> a->Some_0.metadata["distance"@]
                == MetaValueView::UInt(d as u64)
            &&& b->Some_0.metadata.contains_key("distance"@) ==> b->Some_0.metadata["distance"@]
                == MetaValueView::UInt(d as u64)
            &&& (b->Some_0.matched || full) ==> b->Some_0.metadata.contains_key("distance"@)
        }),
{
    let x = encode_utf8(input);
    let y = encode_utf8(target);
    crate::rules::levenshtein::lemma_levenshtein_bounds(x, y);
    let d = levenshtein_distance(x, y);
    assert(d <= MAX_DISTANCE_INPUT_LEN);
    assert((d as u32) as u64 == d as u64);
}

} // verus!

verus! {

/// Every rule reports its generic results alike: under its own name, and with the metadata of
/// a mismatch kept only when `full_metadata_for_all` is set.
pub proof fn lemma_generic_results_of_every_rule(
    rule: AnyRule,
    input: Seq<char>,
    target: Seq<char>,
    full_metadata_for_all: bool,
)
    ensures
        match rule.spec_outcome(input, target, full_metadata_for_all) {
            Some(v) => {
                &&& v.rule_type == rule.spec_name()
                &&& !(v.matched || full_metadata_for_all) ==> v.metadata == Map::<
                    Seq<char>,
                    MetaValueView,
                >::empty()
            },
            None => true,
        },
{
}

} // verus!
