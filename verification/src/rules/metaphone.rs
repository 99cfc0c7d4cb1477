//! Metaphone rule implementation
use vstd::prelude::*;

use crate::metadata::{MetaValue, MetaValueView, Metadata};
use crate::rule::{MatcherResultExt, MatcherResultRuleMetadataExt, MatcherRule, RuleMetadata};
use crate::text::{all_ascii, str_eq};
use crate::MatcherResult;

verus! {

/// The Metaphone code of `s` with the given maximum length, as
/// `rphonetic::Metaphone::new(max_code_length).encode` computes it.
pub uninterp spec fn metaphone_encoding(max_code_length: Option<usize>, s: Seq<char>) -> Seq<char>;

/// The primary Double Metaphone code of `s`, as
/// `rphonetic::DoubleMetaphone::new(max_code_length).encode` computes it.
pub uninterp spec fn double_metaphone_primary(max_code_length: Option<usize>, s: Seq<char>) -> Seq<char>;

/// The alternate Double Metaphone code of `s`, as
/// `rphonetic::DoubleMetaphone::new(max_code_length).encode_alternate` computes it.
pub uninterp spec fn double_metaphone_alternate(max_code_length: Option<usize>, s: Seq<char>) -> Seq<
    char,
>;

/// `Encoder::encode` of `rphonetic::Metaphone::new(max_code_length)`.
///
/// Trusted: the code depends on the arguments alone and is named [`metaphone_encoding`]. The
/// crate mixes byte and character positions, so it is only called on ASCII text.
#[verifier::external_body]
fn metaphone_encode(max_code_length: Option<usize>, s: &str) -> (r: String)
    requires
        all_ascii(s@),
    ensures
        r@ == metaphone_encoding(max_code_length, s@),
{
    rphonetic::Encoder::encode(&rphonetic::Metaphone::new(max_code_length), s)
}

/// `Encoder::encode` of `rphonetic::DoubleMetaphone::new(max_code_length)`.
///
/// Trusted: the primary code depends on the arguments alone and is named
/// [`double_metaphone_primary`]. Only called on ASCII text, as for Metaphone.
#[verifier::external_body]
fn double_metaphone_encode(max_code_length: Option<usize>, s: &str) -> (r: String)
    requires
        all_ascii(s@),
    ensures
        r@ == double_metaphone_primary(max_code_length, s@),
{
    rphonetic::Encoder::encode(&rphonetic::DoubleMetaphone::new(max_code_length), s)
}

/// `DoubleMetaphone::encode_alternate` of `rphonetic::DoubleMetaphone::new(max_code_length)`.
///
/// Trusted: the alternate code depends on the arguments alone and is named
/// [`double_metaphone_alternate`]. Only called on ASCII text, as for Metaphone.
#[verifier::external_body]
fn double_metaphone_encode_alternate(max_code_length: Option<usize>, s: &str) -> (r: String)
    requires
        all_ascii(s@),
    ensures
        r@ == double_metaphone_alternate(max_code_length, s@),
{
    rphonetic::DoubleMetaphone::new(max_code_length).encode_alternate(s)
}

/// Type of Metaphone (normal or double)
#[derive(Clone, Copy, PartialEq, Eq, Structural)]
pub enum MetaphoneRuleType {
    /// Normal
    Normal,
    /// Double
    Double,
}

impl Default for MetaphoneRuleType {
    fn default() -> (r: Self)
        ensures
            r == MetaphoneRuleType::Normal,
    {
        MetaphoneRuleType::Normal
    }
}

/// Name of a Metaphone type.
pub open spec fn metaphone_type_name(t: MetaphoneRuleType) -> Seq<char> {
    match t {
        MetaphoneRuleType::Normal => "normal"@,
        MetaphoneRuleType::Double => "double"@,
    }
}

impl MetaphoneRuleType {
    /// Name of the Metaphone type.
    pub fn as_str(&self) -> (r: &'static str)
        ensures
            r@ == metaphone_type_name(*self),
    {
        match self {
            MetaphoneRuleType::Normal => "normal",
            MetaphoneRuleType::Double => "double",
        }
    }
}

/// Metaphone rule errors
pub enum MetaphoneError {
    /// Used when input string is not ASCII, since it can't be used with metaphone
    NonAsciiInput {
        /// The value of the input string
        input: String,
    },
}

impl MetaphoneError {
    /// Description of the error.
    pub fn message(&self) -> (r: String)
        ensures
            r@ == "Metaphone matcher failed. Non-ASCII input: "@ + self->input@,
    {
        match self {
            MetaphoneError::NonAsciiInput { input } => {
                let mut r = String::from_str("Metaphone matcher failed. Non-ASCII input: ");
                r.append(input.as_str());
                r
            },
        }
    }
}

/// The primary code of `s` under a Metaphone type.
pub open spec fn primary_code_for(
    t: MetaphoneRuleType,
    max_code_length: Option<usize>,
    s: Seq<char>,
) -> Seq<char> {
    match t {
        MetaphoneRuleType::Normal => metaphone_encoding(max_code_length, s),
        MetaphoneRuleType::Double => double_metaphone_primary(max_code_length, s),
    }
}

/// The alternate code of `s` under a Metaphone type (empty for normal Metaphone).
pub open spec fn alternate_code_for(
    t: MetaphoneRuleType,
    max_code_length: Option<usize>,
    s: Seq<char>,
) -> Seq<char> {
    match t {
        MetaphoneRuleType::Normal => Seq::empty(),
        MetaphoneRuleType::Double => double_metaphone_alternate(max_code_length, s),
    }
}

/// Rule
#[derive(Clone)]
pub struct MetaphoneRule {
    /// Type of metaphone (normal or double)
    metaphone_type: MetaphoneRuleType,
    /// Max code length to generate using metaphone (None for unlimited)
    max_code_length: Option<usize>,
    /// Pre-encoded primary target string
    target_primary: String,
    /// Pre-encoded alternate target string (only valid for double metaphone)
    target_alternate: String,
}

impl MetaphoneRule {
    /// The Metaphone type of the rule.
    pub closed spec fn kind(&self) -> MetaphoneRuleType {
        self.metaphone_type
    }

    /// The maximum code length of the rule.
    pub closed spec fn max_length(&self) -> Option<usize> {
        self.max_code_length
    }

    /// The primary code of the target.
    pub closed spec fn target_primary_code(&self) -> Seq<char> {
        self.target_primary@
    }

    /// The alternate code of the target.
    pub closed spec fn target_alternate_code(&self) -> Seq<char> {
        self.target_alternate@
    }

    /// Creates an instance of metaphone rule with pre-computed target string encoding
    pub fn new(
        metaphone_type: MetaphoneRuleType,
        max_code_length: Option<usize>,
        target_str: &str,
    ) -> (r: Self)
        requires
            all_ascii(target_str@),
        ensures
            r.kind() == metaphone_type,
            r.max_length() == max_code_length,
            r.target_primary_code() == primary_code_for(metaphone_type, max_code_length, target_str@),
            r.target_alternate_code() == alternate_code_for(
                metaphone_type,
                max_code_length,
                target_str@,
            ),
    {
        let (target_primary, target_alternate) = match metaphone_type {
            MetaphoneRuleType::Normal => (
                metaphone_encode(max_code_length, target_str),
                String::new(),
            ),
            MetaphoneRuleType::Double => (
                double_metaphone_encode(max_code_length, target_str),
                double_metaphone_encode_alternate(max_code_length, target_str),
            ),
        };
        MetaphoneRule { metaphone_type, max_code_length, target_primary, target_alternate }
    }
}

/// metadata
pub struct MetaphoneMetadata {
    /// Max code length used
    pub max_code_length: Option<usize>,
    /// Name of the Metaphone type
    pub metaphone_type: &'static str,
    /// Primary code of the input
    pub primary_code: String,
    /// Alternate code of the input (double Metaphone only)
    pub alternate_code: Option<String>,
}

impl RuleMetadata for MetaphoneMetadata {
    open spec fn spec_rule_name() -> Seq<char> {
        "metaphone"@
    }

    fn rule_name() -> (r: &'static str) {
        "metaphone"
    }

    open spec fn spec_generic(&self) -> Map<Seq<char>, MetaValueView> {
        Map::empty().insert(
            "max_code_length"@,
            match self.max_code_length {
                Some(l) => MetaValueView::UInt(l as u64),
                None => MetaValueView::Null,
            },
        ).insert("metaphone_type"@, MetaValueView::Str(self.metaphone_type@)).insert(
            "primary_code"@,
            MetaValueView::Str(self.primary_code@),
        ).insert(
            "alternate_code"@,
            match self.alternate_code {
                Some(c) => MetaValueView::Str(c@),
                None => MetaValueView::Null,
            },
        )
    }

    fn to_generic(&self) -> (r: Metadata) {
        let mut m = Metadata::new();
        let max = match self.max_code_length {
            Some(l) => MetaValue::UInt(l as u64),
            None => MetaValue::Null,
        };
        m.insert(String::from_str("max_code_length"), max);
        m.insert(String::from_str("metaphone_type"), MetaValue::Str(String::from_str(self.metaphone_type)));
        m.insert(String::from_str("primary_code"), MetaValue::Str(self.primary_code.clone()));
        let alternate = match &self.alternate_code {
            Some(c) => MetaValue::Str(c.clone()),
            None => MetaValue::Null,
        };
        m.insert(String::from_str("alternate_code"), alternate);
        m
    }
}

impl MatcherRule for MetaphoneRule {
    type OutputMetadata = MetaphoneMetadata;
    type Error = MetaphoneError;

    open spec fn accepts(&self, input_str: &str, target_str: &str) -> bool {
        true
    }

    fn check_accepts(&self, input_str: &str, target_str: &str) -> (r: bool) {
        true
    }

    fn match_rule(&self, input_str: &str, _target_str: &str) -> (r: MatcherResult<
        MetaphoneMetadata,
        MetaphoneError,
    >)
        ensures
            !all_ascii(input_str@) ==> r is Err && r->Err_0->input@ == input_str@,
            all_ascii(input_str@) ==> {
                let primary = primary_code_for(self.kind(), self.max_length(), input_str@);
                let alternate = alternate_code_for(self.kind(), self.max_length(), input_str@);
                &&& r is Ok
                &&& r->Ok_0.rule_type@ == "metaphone"@
                &&& r->Ok_0.metadata.max_code_length == self.max_length()
                &&& r->Ok_0.metadata.metaphone_type@ == metaphone_type_name(self.kind())
                &&& r->Ok_0.metadata.primary_code@ == primary
                &&& r->Ok_0.metadata.alternate_code.is_some() == (self.kind()
                    == MetaphoneRuleType::Double)
                &&& r->Ok_0.metadata.alternate_code.is_some()
                    ==> r->Ok_0.metadata.alternate_code.unwrap()@ == alternate
                &&& r->Ok_0.matched == match self.kind() {
                    MetaphoneRuleType::Normal => primary == self.target_primary_code(),
                    MetaphoneRuleType::Double => primary == self.target_primary_code()
                        || alternate == self.target_alternate_code(),
                }
            },
    {
        if !input_str.is_ascii() {
            return MatcherResult::new_error(
                MetaphoneError::NonAsciiInput { input: input_str.to_string() },
            );
        }
        let (metadata, result) = match self.metaphone_type {
            MetaphoneRuleType::Normal => {
                let res_code = metaphone_encode(self.max_code_length, input_str);
                let result = str_eq(res_code.as_str(), self.target_primary.as_str());
                (
                    MetaphoneMetadata {
                        max_code_length: self.max_code_length,
                        metaphone_type: self.metaphone_type.as_str(),
                        primary_code: res_code,
                        alternate_code: None,
                    },
                    result,
                )
            },
            MetaphoneRuleType::Double => {
                let primary_code = double_metaphone_encode(self.max_code_length, input_str);
                let alternate_code = double_metaphone_encode_alternate(
                    self.max_code_length,
                    input_str,
                );
                let result = str_eq(primary_code.as_str(), self.target_primary.as_str()) || str_eq(
                    alternate_code.as_str(),
                    self.target_alternate.as_str(),
                );
                (
                    MetaphoneMetadata {
                        max_code_length: self.max_code_length,
                        metaphone_type: self.metaphone_type.as_str(),
                        primary_code,
                        alternate_code: Some(alternate_code),
                    },
                    result,
                )
            },
        };
        if result {
            MatcherResult::new_match(metadata)
        } else {
            MatcherResult::new_no_match(metadata)
        }
    }
}

} // verus!
