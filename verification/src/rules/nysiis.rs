//! NYSIIS rule implementation
use vstd::prelude::*;

use crate::metadata::{MetaValue, MetaValueView, Metadata};
use crate::rule::{MatcherResultRuleMetadataExt, MatcherRule, RuleMetadata};
use crate::text::str_eq;
use vstd::string::StringSliceAdditionalSpecFns;
use vstd::utf8::{encode_utf8, is_char_boundary};
use crate::MatcherResult;

verus! {

/// The NYSIIS code of `s`, as `rphonetic::Nysiis::new(strict).encode` computes it.
pub uninterp spec fn nysiis_encoding(strict: bool, s: Seq<char>) -> Seq<char>;

/// Whether keeping the first six bytes of `code` cuts it on a character boundary (or it is not
/// longer than that).
pub open spec fn six_byte_cut_ok(code: Seq<char>) -> bool {
    encode_utf8(code).len() <= 6 || is_char_boundary(encode_utf8(code), 6)
}

/// Whether the NYSIIS encoder runs on `s`: the non-strict encoder always does; the strict one
/// keeps the first six bytes of the non-strict code, which must be a cut between characters.
pub open spec fn nysiis_encodes(strict: bool, s: Seq<char>) -> bool {
    !strict || six_byte_cut_ok(nysiis_encoding(false, s))
}

/// `Encoder::encode` of `rphonetic::Nysiis::new(strict)`.
///
/// Trusted: the code depends on the arguments alone and is named [`nysiis_encoding`]. The
/// crate keeps the alphabetic characters of `s`, uppercased, and transcodes them by character;
/// the byte positions at which it cuts before the end are after ASCII suffixes, so they lie
/// between characters. The strict encoder then keeps the first six bytes of that code (the
/// non-strict code), which panics when byte six falls inside a character; the `requires` rules
/// that out.
#[verifier::external_body]
fn nysiis_encode(strict: bool, s: &str) -> (r: String)
    requires
        nysiis_encodes(strict, s@),
    ensures
        r@ == nysiis_encoding(strict, s@),
{
    rphonetic::Encoder::encode(&rphonetic::Nysiis::new(strict), s)
}

/// Whether the NYSIIS encoder runs on `s`, as [`nysiis_encodes`] says.
fn check_nysiis_encodes(strict: bool, s: &str) -> (r: bool)
    ensures
        r == nysiis_encodes(strict, s@),
{
    if !strict {
        return true;
    }
    let code = nysiis_encode(false, s);
    let c = code.as_str();
    c.as_bytes().len() <= 6 || c.is_char_boundary(6)
}

/// Rule
#[derive(Clone, Copy)]
pub struct NysiisRule {
    /// Whether codes are cut to six characters (strict NYSIIS)
    pub strict: bool,
}

impl NysiisRule {
    /// Creates a new NysiisRule with given strict mode
    pub fn new(strict: bool) -> (r: Self)
        ensures
            r.strict == strict,
    {
        NysiisRule { strict }
    }
}

impl Default for NysiisRule {
    fn default() -> (r: Self)
        ensures
            r.strict,
    {
        NysiisRule { strict: true }
    }
}

/// metadata
pub struct NysiisMetadata {
    /// The code of the input
    pub encoded: String,
}

impl RuleMetadata for NysiisMetadata {
    open spec fn spec_rule_name() -> Seq<char> {
        "nysiis"@
    }

    fn rule_name() -> (r: &'static str) {
        "nysiis"
    }

    open spec fn spec_generic(&self) -> Map<Seq<char>, MetaValueView> {
        Map::empty().insert("encoded"@, MetaValueView::Str(self.encoded@))
    }

    fn to_generic(&self) -> (r: Metadata) {
        let mut m = Metadata::new();
        m.insert(String::from_str("encoded"), MetaValue::Str(self.encoded.clone()));
        m
    }
}

impl MatcherRule for NysiisRule {
    type OutputMetadata = NysiisMetadata;
    type Error = std::io::Error;

    open spec fn accepts(&self, input_str: &str, target_str: &str) -> bool {
        nysiis_encodes(self.strict, input_str@) && nysiis_encodes(self.strict, target_str@)
    }

    fn check_accepts(&self, input_str: &str, target_str: &str) -> (r: bool) {
        check_nysiis_encodes(self.strict, input_str) && check_nysiis_encodes(self.strict, target_str)
    }

    fn match_rule(&self, input_str: &str, target_str: &str) -> (r: MatcherResult<
        NysiisMetadata,
        std::io::Error,
    >)
        ensures
            r is Ok,
            r->Ok_0.rule_type@ == "nysiis"@,
            r->Ok_0.metadata.encoded@ == nysiis_encoding(self.strict, input_str@),
            r->Ok_0.matched == (nysiis_encoding(self.strict, input_str@) == nysiis_encoding(
                self.strict,
                target_str@,
            )),
    {
        let encoded = nysiis_encode(self.strict, input_str);
        let target = nysiis_encode(self.strict, target_str);
        let result = str_eq(encoded.as_str(), target.as_str());
        let metadata = NysiisMetadata { encoded };
        if result {
            MatcherResult::new_match(metadata)
        } else {
            MatcherResult::new_no_match(metadata)
        }
    }
}

} // verus!
