//! Hamming rule implementation
use vstd::prelude::*;
use vstd::string::StringSliceAdditionalSpecFns;

use crate::metadata::{MetaValue, MetaValueView, Metadata};
use crate::rule::{MatcherResultRuleMetadataExt, MatcherRule, RuleMetadata};
use crate::MatcherResult;

verus! {

/// Number of positions at which two byte strings of equal length differ.
pub open spec fn hamming_distance(a: Seq<u8>, b: Seq<u8>) -> nat
    decreases a.len(),
{
    if a.len() == 0 || b.len() == 0 {
        0
    } else {
        hamming_distance(a.drop_last(), b.drop_last()) + if a.last() == b.last() {
            0nat
        } else {
            1nat
        }
    }
}

/// The Hamming distance is at most the length of the strings.
pub proof fn lemma_hamming_at_most_len(a: Seq<u8>, b: Seq<u8>)
    ensures
        hamming_distance(a, b) <= a.len(),
    decreases a.len(),
{
    if a.len() > 0 && b.len() > 0 {
        lemma_hamming_at_most_len(a.drop_last(), b.drop_last());
    }
}

/// Hamming distance of two byte strings of equal length, computed by `triple_accel::hamming`.
///
/// Trusted: the crate counts the positions at which `a` and `b` differ; it panics when the
/// lengths differ, which the `requires` rules out. The result fits a `u32` for lengths within
/// `u32::MAX`.
#[verifier::external_body]
fn hamming(a: &[u8], b: &[u8]) -> (r: u32)
    requires
        a@.len() == b@.len(),
        a@.len() <= u32::MAX,
    ensures
        r == hamming_distance(a@, b@),
{
    triple_accel::hamming(a, b)
}

/// Rule
#[derive(Clone, Copy)]
pub struct HammingRule {
    /// Maximum distance allowed for this rule to be considered matched
    pub maximum_distance: u32,
}

/// metadata
#[derive(Clone, Copy)]
pub struct HammingMetadata {
    /// The Hamming distance, when the input and the target have the same length
    pub distance: Option<u32>,
}

impl RuleMetadata for HammingMetadata {
    open spec fn spec_rule_name() -> Seq<char> {
        "hamming"@
    }

    fn rule_name() -> (r: &'static str) {
        "hamming"
    }

    open spec fn spec_generic(&self) -> Map<Seq<char>, MetaValueView> {
        Map::empty().insert(
            "distance"@,
            match self.distance {
                Some(d) => MetaValueView::UInt(d as u64),
                None => MetaValueView::Null,
            },
        )
    }

    fn to_generic(&self) -> (r: Metadata) {
        let mut m = Metadata::new();
        let v = match self.distance {
            Some(d) => MetaValue::UInt(d as u64),
            None => MetaValue::Null,
        };
        m.insert(String::from_str("distance"), v);
        m
    }
}

impl MatcherRule for HammingRule {
    type OutputMetadata = HammingMetadata;
    type Error = std::io::Error;

    open spec fn accepts(&self, input_str: &str, target_str: &str) -> bool {
        input_str.spec_bytes().len() <= u32::MAX
    }

    fn check_accepts(&self, input_str: &str, target_str: &str) -> (r: bool) {
        input_str.as_bytes().len() <= 0xffff_ffffusize
    }

    fn match_rule(&self, input_str: &str, target_str: &str) -> (r: MatcherResult<
        HammingMetadata,
        std::io::Error,
    >)
        ensures
            r is Ok,
            r->Ok_0.rule_type@ == "hamming"@,
            input_str.spec_bytes().len() != target_str.spec_bytes().len() ==> {
                &&& !r->Ok_0.matched
                &&& r->Ok_0.metadata.distance is None
            },
            input_str.spec_bytes().len() == target_str.spec_bytes().len() ==> {
                let d = hamming_distance(input_str.spec_bytes(), target_str.spec_bytes());
                &&& r->Ok_0.matched == (d <= self.maximum_distance)
                &&& r->Ok_0.metadata.distance == Some(d as u32)
            },
    {
        let a = input_str.as_bytes();
        let b = target_str.as_bytes();
        if a.len() != b.len() {
            return MatcherResult::new_no_match(HammingMetadata { distance: None });
        }
        let res = hamming(a, b);
        let metadata = HammingMetadata { distance: Some(res) };
        if res <= self.maximum_distance {
            MatcherResult::new_match(metadata)
        } else {
            MatcherResult::new_no_match(metadata)
        }
    }
}

} // verus!
