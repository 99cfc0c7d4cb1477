//! Configuration of rules and preprocessors, and how each configuration builds its rule.
use vstd::prelude::*;

use crate::preprocessors::{
    ExclusionSetConfig, ExclusionSetSource, Preprocessor, PunycodeConfig, SplitTargetConfig,
};
use crate::rules::bitflip::{
    byte_range, dns_char_list, dns_chars, printable_chars,
    BitflipRule,
};
use crate::rules::confusables::ConfusablesRule;
use crate::rules::regex::{regex_compiles, RegexBuildError, RegexRule};
use crate::rules::damerau_levenshtein::{DamerauLevenshteinRule, DamerauLevenshteinSubstringRule};
use crate::rules::hamming::HammingRule;
use crate::rules::levenshtein::LevenshteinRule;
use crate::rules::match_rating::{match_rating_domain, match_rating_encoding, MatchRatingRule};
use crate::rules::metaphone::{
    alternate_code_for, primary_code_for, MetaphoneRule, MetaphoneRuleType,
};
use crate::rules::nysiis::NysiisRule;
use crate::rules::soundex::{encoding_for, SoundexRule, SoundexRuleType};
use crate::text::{all_ascii, ascii_byte, char_is_ascii, chars_of, letters_uppercase_to_ascii};

verus! {

/// Errors for rule configuration
pub enum RuleConfigError {
    /// Soundex rule configuration error
    SoundexConfigSimilarityError {
        /// Value that was provided to the rule
        input_value: usize,
    },
    /// Metaphone rule configuration error
    MetaphoneNonAsciiTargetError,
    /// Bitflip rule configuration error
    BitflipNonAsciiCharError {
        /// Value that was provided in custom_char_subset field of the rule.
        input_str: String,
        /// Position at which non-ASCII char was found.
        index: usize,
    },
    /// Regex rule configuration error
    RegexInvalidPattern {
        /// Message of the regex error.
        source: String,
    },
}

/// Common configuration for rules
#[derive(Clone, Copy)]
pub struct CommonRuleConfig {
    /// Whether a match on this rule should end the rule set early
    pub exit_on_match: bool,
}

impl Default for CommonRuleConfig {
    fn default() -> (r: Self)
        ensures
            !r.exit_on_match,
    {
        CommonRuleConfig { exit_on_match: false }
    }
}

impl CommonRuleConfig {
    /// The rule set's form of this configuration.
    pub fn to_matcher_config(&self) -> (r: crate::ruleset::CommonRuleConfig)
        ensures
            r.exit_on_match == self.exit_on_match,
    {
        crate::ruleset::CommonRuleConfig { exit_on_match: self.exit_on_match }
    }
}

/// Configuration for Levenshtein rule
#[derive(Clone, Copy)]
pub struct LevenshteinConfig {
    /// Maximum distance
    pub maximum_distance: u32,
}

impl LevenshteinConfig {
    /// Builds the rule.
    pub fn build(&self, ignore_mismatch_metadata: bool) -> (r: Result<LevenshteinRule, RuleConfigError>)
        ensures
            r matches Ok(rule) && rule.maximum_distance == self.maximum_distance
                && rule.ignore_mismatch_metadata == ignore_mismatch_metadata,
    {
        Ok(LevenshteinRule { maximum_distance: self.maximum_distance, ignore_mismatch_metadata })
    }
}

/// Configuration for Levenshtein substring rule
#[derive(Clone, Copy)]
pub struct LevenshteinSubstringConfig {
    /// Maximum distance
    pub maximum_distance: u32,
}

/// Configuration for Hamming rule
#[derive(Clone, Copy)]
pub struct HammingConfig {
    /// Maximum distance
    pub maximum_distance: u32,
}

impl HammingConfig {
    /// Builds the rule.
    pub fn build(&self) -> (r: Result<HammingRule, RuleConfigError>)
        ensures
            r matches Ok(rule) && rule.maximum_distance == self.maximum_distance,
    {
        Ok(HammingRule { maximum_distance: self.maximum_distance })
    }
}

/// Configuration for Confusables rule
#[derive(Clone, Copy)]
pub struct ConfusablesConfig;

impl ConfusablesConfig {
    /// Builds the rule.
    pub fn build(&self) -> (r: Result<ConfusablesRule, RuleConfigError>)
        ensures
            r is Ok,
    {
        Ok(ConfusablesRule)
    }
}

/// Configuration for Damerau Levenshtein rule
#[derive(Clone, Copy)]
pub struct DamerauLevenshteinConfig {
    /// Maximum distance
    pub maximum_distance: u32,
}

impl DamerauLevenshteinConfig {
    /// Builds the rule.
    pub fn build(&self, ignore_mismatch_metadata: bool) -> (r: Result<
        DamerauLevenshteinRule,
        RuleConfigError,
    >)
        ensures
            r matches Ok(rule) && rule.maximum_distance == self.maximum_distance
                && rule.ignore_mismatch_metadata == ignore_mismatch_metadata,
    {
        Ok(DamerauLevenshteinRule { maximum_distance: self.maximum_distance, ignore_mismatch_metadata })
    }
}

/// Configuration for Damerau Levenshtein substring rule
#[derive(Clone, Copy)]
pub struct DamerauLevenshteinSubstringConfig {
    /// Maximum distance
    pub maximum_distance: u32,
}

impl DamerauLevenshteinSubstringConfig {
    /// Builds the rule.
    pub fn build(&self) -> (r: Result<DamerauLevenshteinSubstringRule, RuleConfigError>)
        ensures
            r matches Ok(rule) && rule.maximum_distance == self.maximum_distance,
    {
        Ok(DamerauLevenshteinSubstringRule { maximum_distance: self.maximum_distance })
    }
}

/// Configuration for Soundex rule
#[derive(Clone, Copy)]
pub struct SoundexConfig {
    /// Minimum similarity
    pub minimum_similarity: usize,
    /// Type of soundex (normal or refined)
    pub soundex_type: SoundexRuleType,
}

impl SoundexConfig {
    /// Builds the rule for `target_str`. Normal Soundex codes agree in at most four places, so
    /// a larger minimum similarity is refused.
    pub fn build(&self, target_str: &str) -> (r: Result<SoundexRule, RuleConfigError>)
        requires
            letters_uppercase_to_ascii(target_str@),
        ensures
            (self.soundex_type == SoundexRuleType::Normal && self.minimum_similarity > 4) ==> (r
                matches Err(RuleConfigError::SoundexConfigSimilarityError { input_value })
                && input_value == self.minimum_similarity),
            !(self.soundex_type == SoundexRuleType::Normal && self.minimum_similarity > 4) ==> (r
                matches Ok(rule) && rule.kind() == self.soundex_type && rule.min_similarity()
                == self.minimum_similarity && rule.target_code() == encoding_for(
                self.soundex_type,
                target_str@,
            )),
    {
        if self.soundex_type == SoundexRuleType::Normal && self.minimum_similarity > 4 {
            return Err(
                RuleConfigError::SoundexConfigSimilarityError {
                    input_value: self.minimum_similarity,
                },
            );
        }
        Ok(SoundexRule::new(self.soundex_type, self.minimum_similarity, target_str))
    }
}

/// The default maximum Metaphone code length.
pub fn default_metaphone_max_code_length() -> (r: Option<usize>)
    ensures
        r == Some(4usize),
{
    Some(4)
}

/// Configuration for Metaphone rule
#[derive(Clone, Copy)]
pub struct MetaphoneConfig {
    /// Max length of the generated Metaphone code
    pub max_code_length: Option<usize>,
    /// Type of metaphone (normal or double)
    pub metaphone_type: MetaphoneRuleType,
}

impl Default for MetaphoneConfig {
    fn default() -> (r: Self)
        ensures
            r.max_code_length == Some(4usize),
            r.metaphone_type == MetaphoneRuleType::Normal,
    {
        MetaphoneConfig {
            max_code_length: default_metaphone_max_code_length(),
            metaphone_type: MetaphoneRuleType::default(),
        }
    }
}

impl MetaphoneConfig {
    /// Builds the rule for `target_str`, which must be ASCII.
    pub fn build(&self, target_str: &str) -> (r: Result<MetaphoneRule, RuleConfigError>)
        ensures
            !all_ascii(target_str@) ==> r matches Err(RuleConfigError::MetaphoneNonAsciiTargetError),
            all_ascii(target_str@) ==> (r matches Ok(rule) && rule.kind() == self.metaphone_type
                && rule.max_length() == self.max_code_length && rule.target_primary_code()
                == primary_code_for(self.metaphone_type, self.max_code_length, target_str@)
                && rule.target_alternate_code() == alternate_code_for(
                self.metaphone_type,
                self.max_code_length,
                target_str@,
            )),
    {
        if !target_str.is_ascii() {
            return Err(RuleConfigError::MetaphoneNonAsciiTargetError);
        }
        Ok(MetaphoneRule::new(self.metaphone_type, self.max_code_length, target_str))
    }
}

/// The default NYSIIS mode: strict.
pub fn default_nysiis_strict_mode() -> (r: bool)
    ensures
        r,
{
    true
}

/// Configuration for NYSIIS rule
#[derive(Clone, Copy)]
pub struct NysiisConfig {
    /// Whether codes are cut to six characters
    pub strict: bool,
}

impl Default for NysiisConfig {
    fn default() -> (r: Self)
        ensures
            r.strict,
    {
        NysiisConfig { strict: default_nysiis_strict_mode() }
    }
}

impl NysiisConfig {
    /// Builds the rule.
    pub fn build(&self, target_str: &str) -> (r: Result<NysiisRule, RuleConfigError>)
        ensures
            r matches Ok(rule) && rule.strict == self.strict,
    {
        Ok(NysiisRule::new(self.strict))
    }
}

/// Configuration for Match Rating rule
#[derive(Clone, Copy)]
pub struct MatchRatingConfig;

impl MatchRatingConfig {
    /// Builds the rule for `target_str`.
    pub fn build(&self, target_str: &str) -> (r: Result<MatchRatingRule, RuleConfigError>)
        requires
            match_rating_domain(target_str@),
        ensures
            r matches Ok(rule) && rule.target_code() == match_rating_encoding(target_str@),
    {
        Ok(MatchRatingRule::new(target_str))
    }
}

/// Character subsets for the Bitflip rule
#[derive(Clone, Copy, PartialEq, Eq, Structural)]
pub enum BitflipCharSubset {
    /// Characters valid in DNS names
    Dns,
    /// Printable ASCII characters
    Printable,
    /// The characters of `custom_char_subset`
    Custom,
}

impl Default for BitflipCharSubset {
    fn default() -> (r: Self)
        ensures
            r == BitflipCharSubset::Dns,
    {
        BitflipCharSubset::Dns
    }
}

/// The default case sensitivity of the Bitflip rule: case sensitive.
pub fn default_bitflip_case_sensitive() -> (r: bool)
    ensures
        r,
{
    true
}

/// Configuration for Bitflip rule
pub struct BitflipConfig {
    /// Characters that flipped characters must stay within
    pub char_subset: BitflipCharSubset,
    /// The characters used when `char_subset` is `Custom`
    pub custom_char_subset: String,
    /// Whether matching is case sensitive
    pub case_sensitive: bool,
}

impl Default for BitflipConfig {
    fn default() -> (r: Self)
        ensures
            r.char_subset == BitflipCharSubset::Dns,
            r.custom_char_subset@.len() == 0,
            r.case_sensitive,
    {
        BitflipConfig {
            char_subset: BitflipCharSubset::default(),
            custom_char_subset: String::new(),
            case_sensitive: default_bitflip_case_sensitive(),
        }
    }
}

/// The bytes of the characters of `s`, when they all fit in a byte.
pub open spec fn char_bytes(s: Seq<char>) -> Seq<u8> {
    s.map_values(|c: char| c as u8)
}

/// The characters of `s` as bytes, when they are all ASCII, or else the position of the first
/// character that is not.
fn chars_as_bytes(s: &str) -> (r: Result<Vec<u8>, usize>)
    ensures
        match r {
            Ok(bytes) => forall|i: int| 0 <= i < s@.len() ==> s@[i] <= '\u{7f}',
            Err(index) => 0 <= index < s@.len() && s@[index as int] > '\u{7f}' && forall|j: int|
                0 <= j < index ==> s@[j] <= '\u{7f}',
        },
        r matches Ok(bytes) ==> bytes@ == char_bytes(s@),
{
    let chars = chars_of(s);
    let n = chars.len();
    let mut bytes: Vec<u8> = Vec::new();
    for i in 0..n
        invariant
            n == chars.len(),
            chars@ == s@,
            bytes@ == char_bytes(s@.take(i as int)),
            forall|j: int| 0 <= j < i ==> s@[j] <= '\u{7f}',
    {
        if !char_is_ascii(chars[i]) {
            return Err(i);
        }
        let b = ascii_byte(chars[i]);
        proof {
            assert(char_bytes(s@.take(i + 1)) =~= char_bytes(s@.take(i as int)).push(s@[i as int] as u8));
        }
        bytes.push(b);
    }
    proof {
        assert(s@.take(n as int) =~= s@);
    }
    Ok(bytes)
}

/// The valid characters a Bitflip configuration allows, when its custom subset is ASCII.
pub open spec fn bitflip_valid_chars(config: BitflipConfig) -> Seq<u8> {
    match config.char_subset {
        BitflipCharSubset::Dns => dns_chars(),
        BitflipCharSubset::Printable => printable_chars(),
        BitflipCharSubset::Custom => char_bytes(config.custom_char_subset@),
    }
}

impl BitflipConfig {
    /// The characters that flipped characters must stay within, or the position of the first
    /// character of a custom subset that is not ASCII.
    pub fn valid_chars(&self) -> (r: Result<Vec<u8>, usize>)
        ensures
            match r {
                Ok(v) => v@ == bitflip_valid_chars(*self),
                Err(index) => self.char_subset == BitflipCharSubset::Custom && index
                    < self.custom_char_subset@.len() && self.custom_char_subset@[index as int]
                    > '\u{7f}',
            },
    {
        match self.char_subset {
            BitflipCharSubset::Dns => Ok(dns_char_list()),
            BitflipCharSubset::Printable => {
                let v = byte_range(0x21, 0x7f);
                assert(v@ == printable_chars());
                Ok(v)
            },
            BitflipCharSubset::Custom => chars_as_bytes(self.custom_char_subset.as_str()),
        }
    }

    /// Builds the rule for `target_str`. A custom subset with a character that is not ASCII is
    /// refused, with the position of the first such character.
    pub fn build(&self, target_str: &str) -> (r: Result<BitflipRule, RuleConfigError>)
        ensures
            match r {
                Ok(rule) => rule.cache() == crate::rules::bitflip::bitflip_cache(
                    target_str@,
                    bitflip_valid_chars(*self),
                    self.case_sensitive,
                ) && rule.is_case_sensitive() == self.case_sensitive && (self.char_subset
                    == BitflipCharSubset::Custom ==> forall|i: int|
                    0 <= i < self.custom_char_subset@.len() ==> self.custom_char_subset@[i]
                        <= '\u{7f}'),
                Err(e) => {
                    &&& self.char_subset == BitflipCharSubset::Custom
                    &&& e matches RuleConfigError::BitflipNonAsciiCharError { input_str, index }
                    &&& e->input_str@ == self.custom_char_subset@
                    &&& e->index < self.custom_char_subset@.len()
                    &&& self.custom_char_subset@[e->index as int] > '\u{7f}'
                    &&& forall|j: int|
                        0 <= j < e->index ==> self.custom_char_subset@[j] <= '\u{7f}'
                },
            },
    {
        match self.char_subset {
            BitflipCharSubset::Dns => Ok(BitflipRule::new_dns(target_str, self.case_sensitive)),
            BitflipCharSubset::Printable => Ok(
                BitflipRule::new_ascii_printable(target_str, self.case_sensitive),
            ),
            BitflipCharSubset::Custom => {
                match chars_as_bytes(self.custom_char_subset.as_str()) {
                    Ok(valid_chars) => Ok(
                        BitflipRule::new(&valid_chars, target_str, self.case_sensitive),
                    ),
                    Err(index) => Err(
                        RuleConfigError::BitflipNonAsciiCharError {
                            input_str: self.custom_char_subset.clone(),
                            index,
                        },
                    ),
                }
            },
        }
    }
}

/// Configuration for Regex rule
pub struct RegexConfig {
    /// The pattern
    pub pattern: String,
}

impl RegexConfig {
    /// Builds the rule; a pattern that does not compile is refused.
    pub fn build(&self) -> (r: Result<RegexRule, RuleConfigError>)
        ensures
            (r is Ok) <==> regex_compiles(self.pattern@),
            r matches Ok(rule) ==> rule.pattern() == self.pattern@,
            r is Err ==> r->Err_0 is RegexInvalidPattern,
    {
        match RegexRule::new(self.pattern.clone()) {
            Ok(rule) => Ok(rule),
            Err(RegexBuildError::RegexCompilationError { source }) => Err(
                RuleConfigError::RegexInvalidPattern { source },
            ),
        }
    }
}

/// Configuration for CIDR rule
pub struct CidrConfig {
    /// The address block
    pub address: String,
}

/// Configuration for exclusion set preprocessors
pub enum ExclusionSetPreprocessorConfig {
    /// Configuration for the file exclusion set preprocessor source
    File {
        /// Path to the file containing exclusion set - one entry per line
        path: String,
    },
    /// Configuration for the static list exclusion set preprocessor source
    List {
        /// Static list of exclusion set entries
        list: Vec<String>,
    },
}

/// Default for flags that are set unless configured otherwise.
pub fn default_true() -> (r: bool)
    ensures
        r,
{
    true
}

/// Configuration for preprocessors
pub enum PreprocessorConfig {
    /// Configuration for the split target preprocessor
    SplitTarget {
        /// If set to true, will ignore TLD part of the split string
        ignore_tld: bool,
    },
    /// Configuration for the exclusion set preprocessor
    ExclusionSet {
        /// Specific exclusion set type config
        inner: ExclusionSetPreprocessorConfig,
        /// If set to true, values will be treated as regex patterns, rather than exact values
        regex: bool,
    },
    /// Configuration for the punycode preprocessor
    Punycode {
        /// If set to true, non-ascii strings will be punycode encoded
        encode: bool,
        /// If set to true, punycode encoded strings will be decoded
        decode: bool,
        /// If set to true, the original input value will be kept alongside the encoded/decoded
        /// value
        keep_both: bool,
    },
}

impl PreprocessorConfig {
    /// Builds the preprocessor.
    pub fn build(&self) -> (r: Result<Preprocessor, RuleConfigError>)
        ensures
            r is Ok,
            match *self {
                PreprocessorConfig::SplitTarget { ignore_tld } => r->Ok_0 == Preprocessor::SplitTarget(
                    SplitTargetConfig { ignore_tld },
                ),
                PreprocessorConfig::ExclusionSet { inner, regex } => r->Ok_0 matches Preprocessor::ExclusionSet(c)
                    && c.regex == regex && match inner {
                    ExclusionSetPreprocessorConfig::File { path } => c.source matches ExclusionSetSource::File(p)
                        && p@ == path@,
                    ExclusionSetPreprocessorConfig::List { list } => c.source matches ExclusionSetSource::Static(l)
                        && l@ == list@,
                },
                PreprocessorConfig::Punycode { encode, decode, keep_both } => r->Ok_0
                    == Preprocessor::Punycode(PunycodeConfig { encode, decode, keep_both }),
            },
    {
        match self {
            PreprocessorConfig::SplitTarget { ignore_tld } => Ok(
                Preprocessor::SplitTarget(SplitTargetConfig { ignore_tld: *ignore_tld }),
            ),
            PreprocessorConfig::ExclusionSet { inner, regex } => Ok(
                Preprocessor::ExclusionSet(
                    ExclusionSetConfig {
                        source: match inner {
                            ExclusionSetPreprocessorConfig::File { path } => ExclusionSetSource::File(
                                path.clone(),
                            ),
                            ExclusionSetPreprocessorConfig::List { list } => ExclusionSetSource::Static(
                                list.clone(),
                            ),
                        },
                        regex: *regex,
                    },
                ),
            ),
            PreprocessorConfig::Punycode { encode, decode, keep_both } => Ok(
                Preprocessor::Punycode(
                    PunycodeConfig { encode: *encode, decode: *decode, keep_both: *keep_both },
                ),
            ),
        }
    }
}

} // verus!
