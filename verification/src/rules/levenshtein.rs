//! Levenshtein rule implementation
use vstd::prelude::*;

use crate::metadata::{MetaValue, MetaValueView, Metadata};
use crate::rule::{
    MatcherResultRuleMetadataExt, MatcherResultRuleOptionMetadataExt, MatcherRule, RuleMetadata,
};
use crate::MatcherResult;
use vstd::string::StringSliceAdditionalSpecFns;

verus! {

/// Inputs longer than this many bytes are beyond what the distance routines of the
/// `triple_accel` crate handle without overflowing their `u32` arithmetic.
pub const MAX_DISTANCE_INPUT_LEN: usize = 0x3fff_ffff;

/// Smallest of three numbers.
pub open spec fn min3(a: nat, b: nat, c: nat) -> nat {
    if a <= b && a <= c {
        a
    } else if b <= c {
        b
    } else {
        c
    }
}

/// Absolute difference of two numbers.
pub open spec fn nat_abs_diff(a: nat, b: nat) -> nat {
    if a >= b {
        (a - b) as nat
    } else {
        (b - a) as nat
    }
}

/// Levenshtein distance between two byte strings: the least number of single-byte
/// insertions, deletions and substitutions that turn `a` into `b`.
pub open spec fn levenshtein_distance(a: Seq<u8>, b: Seq<u8>) -> nat
    decreases a.len() + b.len(),
{
    if a.len() == 0 {
        b.len()
    } else if b.len() == 0 {
        a.len()
    } else {
        min3(
            levenshtein_distance(a.drop_last(), b) + 1,
            levenshtein_distance(a, b.drop_last()) + 1,
            levenshtein_distance(a.drop_last(), b.drop_last()) + if a.last() == b.last() {
                0nat
            } else {
                1nat
            },
        )
    }
}

/// The Levenshtein distance is at least the difference of the lengths and at most the
/// larger length.
pub proof fn lemma_levenshtein_bounds(a: Seq<u8>, b: Seq<u8>)
    ensures
        levenshtein_distance(a, b) >= nat_abs_diff(a.len(), b.len()),
        levenshtein_distance(a, b) <= if a.len() >= b.len() { a.len() } else { b.len() },
    decreases a.len() + b.len(),
{
    if a.len() > 0 && b.len() > 0 {
        lemma_levenshtein_bounds(a.drop_last(), b);
        lemma_levenshtein_bounds(a, b.drop_last());
        lemma_levenshtein_bounds(a.drop_last(), b.drop_last());
    }
}

/// Levenshtein distance of two byte strings, computed by `triple_accel::levenshtein_exp`.
///
/// Trusted: the crate documents the result as the Levenshtein distance of `a` and `b`; this
/// contract states that it equals [`levenshtein_distance`]. The length bound keeps the
/// crate's internal `u32` arithmetic from overflowing.
#[verifier::external_body]
fn levenshtein_exp(a: &[u8], b: &[u8]) -> (r: u32)
    requires
        a@.len() <= MAX_DISTANCE_INPUT_LEN,
        b@.len() <= MAX_DISTANCE_INPUT_LEN,
    ensures
        r == levenshtein_distance(a@, b@),
{
    triple_accel::levenshtein_exp(a, b)
}

/// Rule
#[derive(Clone, Copy)]
pub struct LevenshteinRule {
    /// Maximum distance allowed for this rule to be considered matched
    pub maximum_distance: u32,
    /// Uses hardcoded metadata for mismatches
    /// Makes the matcher faster, but makes the metadata invalid for mismatches
    pub ignore_mismatch_metadata: bool,
}

/// metadata
#[derive(Clone, Copy)]
pub struct LevenshteinMetadata {
    /// The Levenshtein distance between input and target
    pub distance: u32,
}

impl RuleMetadata for LevenshteinMetadata {
    open spec fn spec_rule_name() -> Seq<char> {
        "levenshtein"@
    }

    fn rule_name() -> (r: &'static str) {
        "levenshtein"
    }

    open spec fn spec_generic(&self) -> Map<Seq<char>, MetaValueView> {
        Map::empty().insert("distance"@, MetaValueView::UInt(self.distance as u64))
    }

    fn to_generic(&self) -> (r: Metadata) {
        let mut m = Metadata::new();
        m.insert(String::from_str("distance"), MetaValue::UInt(self.distance as u64));
        m
    }
}

/// Byte-length gap between two strings.
pub fn byte_len_gap(a: &str, b: &str) -> (r: usize)
    ensures
        r == nat_abs_diff(a.spec_bytes().len(), b.spec_bytes().len()),
{
    let la = a.as_bytes().len();
    let lb = b.as_bytes().len();
    if la >= lb {
        la - lb
    } else {
        lb - la
    }
}

impl MatcherRule for LevenshteinRule {
    type OutputMetadata = Option<LevenshteinMetadata>;
    type Error = std::io::Error;

    open spec fn accepts(&self, input_str: &str, target_str: &str) -> bool {
        input_str.spec_bytes().len() <= MAX_DISTANCE_INPUT_LEN
            && target_str.spec_bytes().len() <= MAX_DISTANCE_INPUT_LEN
    }

    fn check_accepts(&self, input_str: &str, target_str: &str) -> (r: bool) {
        input_str.as_bytes().len() <= MAX_DISTANCE_INPUT_LEN
            && target_str.as_bytes().len() <= MAX_DISTANCE_INPUT_LEN
    }

    fn match_rule(&self, input_str: &str, target_str: &str) -> (r: MatcherResult<
        Option<LevenshteinMetadata>,
        std::io::Error,
    >)
        ensures
            r is Ok,
            r->Ok_0.rule_type@ == "levenshtein"@,
            r->Ok_0.matched == (levenshtein_distance(input_str.spec_bytes(), target_str.spec_bytes())
                <= self.maximum_distance),
            self.ignore_mismatch_metadata && nat_abs_diff(
                input_str.spec_bytes().len(),
                target_str.spec_bytes().len(),
            ) > self.maximum_distance ==> r->Ok_0.metadata is None,
            !(self.ignore_mismatch_metadata && nat_abs_diff(
                input_str.spec_bytes().len(),
                target_str.spec_bytes().len(),
            ) > self.maximum_distance) ==> r->Ok_0.metadata == Some(
                LevenshteinMetadata {
                    distance: levenshtein_distance(input_str.spec_bytes(), target_str.spec_bytes())
                        as u32,
                },
            ),
    {
        if self.ignore_mismatch_metadata && byte_len_gap(input_str, target_str)
            > self.maximum_distance as usize {
            proof {
                lemma_levenshtein_bounds(input_str.spec_bytes(), target_str.spec_bytes());
            }
            return MatcherResult::new_no_match_no_metadata();
        }
        let res = levenshtein_exp(input_str.as_bytes(), target_str.as_bytes());
        let metadata = LevenshteinMetadata { distance: res };
        if res <= self.maximum_distance {
            MatcherResult::new_match(metadata)
        } else {
            MatcherResult::new_no_match(metadata)
        }
    }
}

} // verus!
