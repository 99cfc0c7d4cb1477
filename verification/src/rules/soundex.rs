//! Soundex rule implementation
use vstd::prelude::*;

use crate::metadata::{MetaValue, MetaValueView, Metadata};
use crate::rule::{MatcherResultRuleMetadataExt, MatcherRule, RuleMetadata};
use crate::text::{check_letters_uppercase_to_ascii, chars_of, letters_uppercase_to_ascii};
use crate::MatcherResult;

verus! {

/// The Soundex code of `s`, as `rphonetic::Soundex::default().encode` computes it.
pub uninterp spec fn soundex_encoding(s: Seq<char>) -> Seq<char>;

/// The refined Soundex code of `s`, as `rphonetic::RefinedSoundex::default().encode`
/// computes it.
pub uninterp spec fn refined_soundex_encoding(s: Seq<char>) -> Seq<char>;

/// `Encoder::encode` of `rphonetic::Soundex::default()`.
///
/// Trusted: the code depends on `s` alone and is named [`soundex_encoding`]. The crate keeps
/// the alphabetic characters of `s`, uppercased, and returns the empty string when there are
/// none, or else a code of exactly four characters (the first letter and three digits). On a
/// letter outside `A`-`Z` after uppercasing the crate indexes out of its table and panics; the
/// `requires` rules such letters out (`A`-`Z` holds any ASCII letter, and characters that are
/// not alphabetic, such as digits or `€`, are dropped before encoding).
#[verifier::external_body]
fn soundex_encode(s: &str) -> (r: String)
    requires
        letters_uppercase_to_ascii(s@),
    ensures
        r@ == soundex_encoding(s@),
        r@.len() == 0 || r@.len() == 4,
{
    rphonetic::Encoder::encode(&rphonetic::Soundex::default(), s)
}

/// `Encoder::encode` of `rphonetic::RefinedSoundex::default()`.
///
/// Trusted: the code depends on `s` alone and is named [`refined_soundex_encoding`]. As for
/// Soundex, an alphabetic character that does not uppercase to `A`-`Z` makes the crate panic,
/// which the `requires` rules out.
#[verifier::external_body]
fn refined_soundex_encode(s: &str) -> (r: String)
    requires
        letters_uppercase_to_ascii(s@),
    ensures
        r@ == refined_soundex_encoding(s@),
{
    rphonetic::Encoder::encode(&rphonetic::RefinedSoundex::default(), s)
}

/// Type of Soundex (normal or refined)
#[derive(Clone, Copy, PartialEq, Eq, Structural)]
pub enum SoundexRuleType {
    /// Normal
    Normal,
    /// Refined
    Refined,
}

impl Default for SoundexRuleType {
    fn default() -> (r: Self)
        ensures
            r == SoundexRuleType::Normal,
    {
        SoundexRuleType::Normal
    }
}

/// Name of a Soundex type.
pub open spec fn soundex_type_name(t: SoundexRuleType) -> Seq<char> {
    match t {
        SoundexRuleType::Normal => "normal"@,
        SoundexRuleType::Refined => "refined"@,
    }
}

/// The code of `s` under a Soundex type.
pub open spec fn encoding_for(t: SoundexRuleType, s: Seq<char>) -> Seq<char> {
    match t {
        SoundexRuleType::Normal => soundex_encoding(s),
        SoundexRuleType::Refined => refined_soundex_encoding(s),
    }
}

impl SoundexRuleType {
    /// Name of the Soundex type.
    pub fn as_str(&self) -> (r: &'static str)
        ensures
            r@ == soundex_type_name(*self),
    {
        match self {
            SoundexRuleType::Normal => "normal",
            SoundexRuleType::Refined => "refined",
        }
    }

    /// Encodes `s` with this Soundex type.
    fn encode(&self, s: &str) -> (r: String)
        requires
            letters_uppercase_to_ascii(s@),
        ensures
            r@ == encoding_for(*self, s@),
            *self == SoundexRuleType::Normal ==> r@.len() <= 4,
    {
        match self {
            SoundexRuleType::Normal => soundex_encode(s),
            SoundexRuleType::Refined => refined_soundex_encode(s),
        }
    }
}

/// Number of positions `i < n` at which `a` and `b` hold the same character.
pub open spec fn equal_positions_upto(a: Seq<char>, b: Seq<char>, n: int) -> nat
    decreases n,
{
    if n <= 0 {
        0
    } else {
        equal_positions_upto(a, b, n - 1) + if a[n - 1] == b[n - 1] {
            1nat
        } else {
            0nat
        }
    }
}

/// Number of positions at which two codes agree, comparing them from the start.
pub open spec fn code_similarity(a: Seq<char>, b: Seq<char>) -> nat {
    equal_positions_upto(a, b, if a.len() < b.len() { a.len() as int } else { b.len() as int })
}

/// The count of agreeing positions is at most the number of positions compared.
pub proof fn lemma_equal_positions_bounded(a: Seq<char>, b: Seq<char>, n: int)
    requires
        0 <= n,
    ensures
        equal_positions_upto(a, b, n) <= n,
    decreases n,
{
    if n > 0 {
        lemma_equal_positions_bounded(a, b, n - 1);
    }
}

/// Rule
#[derive(Clone)]
pub struct SoundexRule {
    /// Type of soundex (normal or refined)
    soundex_type: SoundexRuleType,
    /// Minimum similarity value to consider rule matched
    minimum_similarity: usize,
    /// Pre-encoded target string
    encoded_target: String,
}

impl SoundexRule {
    /// The Soundex type of the rule.
    pub closed spec fn kind(&self) -> SoundexRuleType {
        self.soundex_type
    }

    /// The minimum similarity for a match.
    pub closed spec fn min_similarity(&self) -> usize {
        self.minimum_similarity
    }

    /// The code of the target string.
    pub closed spec fn target_code(&self) -> Seq<char> {
        self.encoded_target@
    }

    /// Creates an instance of soundex rule with pre-computed target string encoding
    pub fn new(soundex_type: SoundexRuleType, minimum_similarity: usize, target_str: &str) -> (r: Self)
        requires
            letters_uppercase_to_ascii(target_str@),
        ensures
            r.kind() == soundex_type,
            r.min_similarity() == minimum_similarity,
            r.target_code() == encoding_for(soundex_type, target_str@),
    {
        SoundexRule {
            soundex_type,
            minimum_similarity,
            encoded_target: soundex_type.encode(target_str),
        }
    }
}

/// metadata
pub struct SoundexMetadata {
    /// Number of positions at which the codes of the input and the target agree
    pub similarity: usize,
    /// Name of the Soundex type
    pub soundex_type: &'static str,
}

impl RuleMetadata for SoundexMetadata {
    open spec fn spec_rule_name() -> Seq<char> {
        "soundex"@
    }

    fn rule_name() -> (r: &'static str) {
        "soundex"
    }

    open spec fn spec_generic(&self) -> Map<Seq<char>, MetaValueView> {
        Map::empty().insert("similarity"@, MetaValueView::UInt(self.similarity as u64)).insert(
            "soundex_type"@,
            MetaValueView::Str(self.soundex_type@),
        )
    }

    fn to_generic(&self) -> (r: Metadata) {
        let mut m = Metadata::new();
        m.insert(String::from_str("similarity"), MetaValue::UInt(self.similarity as u64));
        m.insert(String::from_str("soundex_type"), MetaValue::Str(String::from_str(self.soundex_type)));
        m
    }
}

/// Counts the positions at which two codes agree.
fn similarity(a: &str, b: &str) -> (r: usize)
    ensures
        r == code_similarity(a@, b@),
{
    let va = chars_of(a);
    let vb = chars_of(b);
    let n = if va.len() < vb.len() {
        va.len()
    } else {
        vb.len()
    };
    let mut count: usize = 0;
    for i in 0..n
        invariant
            va@ == a@,
            vb@ == b@,
            n <= va.len(),
            n <= vb.len(),
            n == (if a@.len() < b@.len() { a@.len() as int } else { b@.len() as int }),
            count == equal_positions_upto(a@, b@, i as int),
    {
        proof {
            lemma_equal_positions_bounded(a@, b@, i as int);
        }
        if va[i] == vb[i] {
            count = count + 1;
        }
    }
    count
}

impl MatcherRule for SoundexRule {
    type OutputMetadata = SoundexMetadata;
    type Error = std::io::Error;

    open spec fn accepts(&self, input_str: &str, target_str: &str) -> bool {
        self.target_code().len() == 0 || letters_uppercase_to_ascii(input_str@)
    }

    fn check_accepts(&self, input_str: &str, target_str: &str) -> (r: bool) {
        self.encoded_target.as_str().is_empty() || check_letters_uppercase_to_ascii(input_str)
    }

    fn match_rule(&self, input_str: &str, _target_str: &str) -> (r: MatcherResult<
        SoundexMetadata,
        std::io::Error,
    >)
        ensures
            r is Ok,
            r->Ok_0.rule_type@ == "soundex"@,
            r->Ok_0.metadata.similarity == code_similarity(
                encoding_for(self.kind(), input_str@),
                self.target_code(),
            ),
            r->Ok_0.metadata.soundex_type@ == soundex_type_name(self.kind()),
            r->Ok_0.matched == (r->Ok_0.metadata.similarity >= self.min_similarity()),
            self.kind() == SoundexRuleType::Normal ==> r->Ok_0.metadata.similarity <= 4,
    {
        // A target without a code is similar to nothing; the input is not encoded then.
        let res = if self.encoded_target.as_str().is_empty() {
            0
        } else {
            let input = self.soundex_type.encode(input_str);
            let res = similarity(input.as_str(), self.encoded_target.as_str());
            proof {
                let a = input@;
                let b = self.encoded_target@;
                lemma_equal_positions_bounded(a, b, if a.len() < b.len() { a.len() as int } else { b.len() as int });
            }
            res
        };
        let metadata = SoundexMetadata { similarity: res, soundex_type: self.soundex_type.as_str() };
        if res >= self.minimum_similarity {
            MatcherResult::new_match(metadata)
        } else {
            MatcherResult::new_no_match(metadata)
        }
    }
}

} // verus!

verus! {

/// The positions below `n` at which `a` and `b` hold the same character.
pub open spec fn agreeing_positions(a: Seq<char>, b: Seq<char>, n: int) -> Set<int> {
    Set::new(|i: int| 0 <= i < n && a[i] == b[i])
}

/// Counting equal positions up to `n` counts the set of agreeing positions below `n`.
proof fn lemma_equal_positions_count_the_set(a: Seq<char>, b: Seq<char>, n: int)
    requires
        0 <= n,
    ensures
        agreeing_positions(a, b, n).finite(),
        equal_positions_upto(a, b, n) == agreeing_positions(a, b, n).len(),
    decreases n,
{
    if n == 0 {
        assert(agreeing_positions(a, b, 0) =~= Set::<int>::empty());
    } else {
        lemma_equal_positions_count_the_set(a, b, n - 1);
        let prev = agreeing_positions(a, b, n - 1);
        if a[n - 1] == b[n - 1] {
            assert(agreeing_positions(a, b, n) =~= prev.insert(n - 1));
            assert(!prev.contains(n - 1));
        } else {
            assert(agreeing_positions(a, b, n) =~= prev);
        }
    }
}

/// The similarity of two codes is the number of positions, among those both codes have, at
/// which they hold the same character, wherever those positions are.
pub proof fn lemma_similarity_counts_agreeing_positions(a: Seq<char>, b: Seq<char>)
    ensures
        ({
            let n = if a.len() < b.len() { a.len() as int } else { b.len() as int };
            &&& agreeing_positions(a, b, n).finite()
            &&& code_similarity(a, b) == agreeing_positions(a, b, n).len()
        }),
{
    let n = if a.len() < b.len() { a.len() as int } else { b.len() as int };
    lemma_equal_positions_count_the_set(a, b, n);
}

/// Making the codes agree at one more position raises their similarity by one, wherever that
/// position is.
pub proof fn lemma_similarity_gains_one_per_agreement(a: Seq<char>, b: Seq<char>, i: int)
    requires
        0 <= i < a.len(),
        i < b.len(),
        a[i] != b[i],
    ensures
        code_similarity(a.update(i, b[i]), b) == code_similarity(a, b) + 1,
{
    let n = if a.len() < b.len() { a.len() as int } else { b.len() as int };
    let a2 = a.update(i, b[i]);
    lemma_similarity_counts_agreeing_positions(a, b);
    lemma_similarity_counts_agreeing_positions(a2, b);
    assert(agreeing_positions(a2, b, n) =~= agreeing_positions(a, b, n).insert(i));
}

} // verus!
