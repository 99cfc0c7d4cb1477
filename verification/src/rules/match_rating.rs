//! Match Rating rule implementation
use vstd::prelude::*;

use crate::metadata::{MetaValueView, Metadata};
use crate::rule::{MatcherResultRuleMetadataExt, MatcherRule, RuleMetadata};
use crate::text::{all_ascii, char_is_ascii, chars_of, str_eq};
use crate::MatcherResult;

verus! {

/// The Match Rating Approach code of `s`, as `rphonetic::MatchRatingApproach.encode` computes
/// it.
pub uninterp spec fn match_rating_encoding(s: Seq<char>) -> Seq<char>;

/// Whether `c` is one of the sixty accented letters that the crate's Match Rating encoder
/// replaces by a plain letter (its `UNICODE` table): the Latin-1 letters with grave, acute,
/// circumflex, tilde and diaeresis, A with ring, C with cedilla, N with tilde, and Y with
/// circumflex, Y with diaeresis, O and U with double acute, in both cases. The uppercase of
/// each of them is one of them.
pub open spec fn is_mapped_accent(c: char) -> bool {
    match c {
        '\u{c0}' | '\u{c1}' | '\u{c2}' | '\u{c3}' | '\u{c4}' | '\u{c5}' | '\u{c7}' | '\u{c8}'
        | '\u{c9}' | '\u{ca}' | '\u{cb}' | '\u{cc}' | '\u{cd}' | '\u{ce}' | '\u{cf}' | '\u{d1}'
        | '\u{d2}' | '\u{d3}' | '\u{d4}' | '\u{d5}' | '\u{d6}' | '\u{d9}' | '\u{da}' | '\u{db}'
        | '\u{dc}' | '\u{dd}' | '\u{e0}' | '\u{e1}' | '\u{e2}' | '\u{e3}' | '\u{e4}' | '\u{e5}'
        | '\u{e7}' | '\u{e8}' | '\u{e9}' | '\u{ea}' | '\u{eb}' | '\u{ec}' | '\u{ed}' | '\u{ee}'
        | '\u{ef}' | '\u{f1}' | '\u{f2}' | '\u{f3}' | '\u{f4}' | '\u{f5}' | '\u{f6}' | '\u{f9}'
        | '\u{fa}' | '\u{fb}' | '\u{fc}' | '\u{fd}' | '\u{ff}' | '\u{150}' | '\u{151}' | '\u{170}'
        | '\u{171}' | '\u{176}' | '\u{177}' | '\u{178}' => true,
        _ => false,
    }
}

/// Whether every character of `s` is ASCII or one of the accented letters of
/// [`is_mapped_accent`].
pub open spec fn match_rating_domain(s: Seq<char>) -> bool {
    forall|i: int| 0 <= i < s.len() ==> s[i] <= '\u{7f}' || #[trigger] is_mapped_accent(s[i])
}

/// Whether `c` is one of the accented letters of [`is_mapped_accent`].
fn mapped_accent(c: char) -> (r: bool)
    ensures
        r == is_mapped_accent(c),
{
    match c {
        '\u{c0}' | '\u{c1}' | '\u{c2}' | '\u{c3}' | '\u{c4}' | '\u{c5}' | '\u{c7}' | '\u{c8}'
        | '\u{c9}' | '\u{ca}' | '\u{cb}' | '\u{cc}' | '\u{cd}' | '\u{ce}' | '\u{cf}' | '\u{d1}'
        | '\u{d2}' | '\u{d3}' | '\u{d4}' | '\u{d5}' | '\u{d6}' | '\u{d9}' | '\u{da}' | '\u{db}'
        | '\u{dc}' | '\u{dd}' | '\u{e0}' | '\u{e1}' | '\u{e2}' | '\u{e3}' | '\u{e4}' | '\u{e5}'
        | '\u{e7}' | '\u{e8}' | '\u{e9}' | '\u{ea}' | '\u{eb}' | '\u{ec}' | '\u{ed}' | '\u{ee}'
        | '\u{ef}' | '\u{f1}' | '\u{f2}' | '\u{f3}' | '\u{f4}' | '\u{f5}' | '\u{f6}' | '\u{f9}'
        | '\u{fa}' | '\u{fb}' | '\u{fc}' | '\u{fd}' | '\u{ff}' | '\u{150}' | '\u{151}' | '\u{170}'
        | '\u{171}' | '\u{176}' | '\u{177}' | '\u{178}' => true,
        _ => false,
    }
}

/// Whether every character of `s` is ASCII or one of the accented letters of
/// [`is_mapped_accent`].
pub fn in_match_rating_domain(s: &str) -> (r: bool)
    ensures
        r == match_rating_domain(s@),
{
    let chars = chars_of(s);
    let n = chars.len();
    for i in 0..n
        invariant
            n == chars.len(),
            chars@ == s@,
            forall|j: int| 0 <= j < i ==> s@[j] <= '\u{7f}' || #[trigger] is_mapped_accent(s@[j]),
    {
        if !char_is_ascii(chars[i]) && !mapped_accent(chars[i]) {
            return false;
        }
    }
    true
}

/// `Encoder::encode` of `rphonetic::MatchRatingApproach`.
///
/// Trusted: the code depends on `s` alone and is named [`match_rating_encoding`]. The crate
/// uppercases, drops separators and whitespace, replaces the accented letters of its table by
/// plain ones, drops vowels after the first letter and doubled consonants, and keeps the first
/// and last three characters of what is left when it is longer than six bytes. On input of
/// ASCII characters and letters of its table every step yields ASCII (the table holds the
/// uppercase of each of its letters), so the code is ASCII and at most six characters long. It
/// cuts the code at byte positions, which could fall inside another multi-byte character;
/// the `requires` rules those out.
#[verifier::external_body]
fn match_rating_encode(s: &str) -> (r: String)
    requires
        match_rating_domain(s@),
    ensures
        r@ == match_rating_encoding(s@),
        all_ascii(r@),
        r@.len() <= 6,
{
    rphonetic::Encoder::encode(&rphonetic::MatchRatingApproach, s)
}

/// Whether `c` is an ASCII character that `str::trim` removes.
pub open spec fn is_ascii_whitespace(c: char) -> bool {
    c == ' ' || c == '\t' || c == '\n' || c == '\u{0b}' || c == '\u{0c}' || c == '\r'
}

/// Number of characters of `s` that are not whitespace.
pub open spec fn non_whitespace_count(s: Seq<char>) -> nat
    decreases s.len(),
{
    if s.len() == 0 {
        0
    } else {
        non_whitespace_count(s.drop_last()) + if is_ascii_whitespace(s.last()) {
            0nat
        } else {
            1nat
        }
    }
}

/// The minimum rating for a match, given the sum of the lengths of the two codes.
pub open spec fn minimum_rating(sum_length: int) -> int {
    if sum_length <= 4 {
        5
    } else if sum_length <= 7 {
        4
    } else if sum_length <= 11 {
        3
    } else if sum_length == 12 {
        2
    } else {
        1
    }
}

/// `s` with a space at each position `i` where `other` holds the same character.
pub open spec fn blank_front_matches(s: Seq<char>, other: Seq<char>) -> Seq<char> {
    Seq::new(
        s.len(),
        |i: int|
            if i < other.len() && s[i] == other[i] {
                ' '
            } else {
                s[i]
            },
    )
}

/// `s` without its spaces.
pub open spec fn without_spaces(s: Seq<char>) -> Seq<char>
    decreases s.len(),
{
    if s.len() == 0 {
        s
    } else if s.last() == ' ' {
        without_spaces(s.drop_last())
    } else {
        without_spaces(s.drop_last()).push(s.last())
    }
}

/// Number of steps `i < k` at which `a` and `b` hold the same character `i` places from
/// their ends.
pub open spec fn back_matches(a: Seq<char>, b: Seq<char>, k: int) -> nat
    decreases k,
{
    if k <= 0 {
        0
    } else {
        back_matches(a, b, k - 1) + if a[a.len() - k] == b[b.len() - k] {
            1nat
        } else {
            0nat
        }
    }
}

/// The distance of `r` from six.
pub open spec fn distance_from_six(r: int) -> int {
    if r > 6 {
        r - 6
    } else {
        6 - r
    }
}

/// The rating of two codes: characters matching at the same position from the start are
/// struck out of both, then characters matching at the same position from the end; the
/// rating is the distance from six of the number of characters left in the longer
/// remainder.
pub open spec fn unmatched_rating(name1: Seq<char>, name2: Seq<char>) -> int {
    let a = without_spaces(blank_front_matches(name1, name2));
    let b = without_spaces(blank_front_matches(name2, name1));
    let k = if a.len() < b.len() {
        a.len() as int
    } else {
        b.len() as int
    };
    let m = back_matches(a, b, k);
    let r1 = a.len() - m;
    let r2 = b.len() - m;
    if r1 > r2 {
        distance_from_six(r1)
    } else {
        distance_from_six(r2)
    }
}

/// At most `k` steps match.
proof fn lemma_back_matches_bounded(a: Seq<char>, b: Seq<char>, k: int)
    requires
        0 <= k,
    ensures
        back_matches(a, b, k) <= k,
    decreases k,
{
    if k > 0 {
        lemma_back_matches_bounded(a, b, k - 1);
    }
}

/// Counting matches from the end does not depend on which name comes first.
proof fn lemma_back_matches_symmetric(a: Seq<char>, b: Seq<char>, k: int)
    ensures
        back_matches(a, b, k) == back_matches(b, a, k),
    decreases k,
{
    if k > 0 {
        lemma_back_matches_symmetric(a, b, k - 1);
    }
}

/// The rating of two names does not depend on their order.
pub proof fn lemma_unmatched_rating_symmetric(name1: Seq<char>, name2: Seq<char>)
    ensures
        unmatched_rating(name1, name2) == unmatched_rating(name2, name1),
{
    let a = without_spaces(blank_front_matches(name1, name2));
    let b = without_spaces(blank_front_matches(name2, name1));
    let k = if a.len() < b.len() {
        a.len() as int
    } else {
        b.len() as int
    };
    lemma_back_matches_symmetric(a, b, k);
}

/// Minimum rating for the sum of the lengths of two codes.
fn get_minimum_rating(sum_length: usize) -> (r: usize)
    ensures
        r == minimum_rating(sum_length as int),
{
    if sum_length <= 4 {
        5
    } else if sum_length <= 7 {
        4
    } else if sum_length <= 11 {
        3
    } else if sum_length == 12 {
        2
    } else {
        1
    }
}

/// The characters of `v` without its spaces.
fn remove_spaces(v: &Vec<char>) -> (r: Vec<char>)
    ensures
        r@ == without_spaces(v@),
{
    let mut r: Vec<char> = Vec::new();
    let n = v.len();
    for i in 0..n
        invariant
            n == v.len(),
            r@ == without_spaces(v@.take(i as int)),
    {
        proof {
            let next = v@.take(i + 1);
            assert(next.drop_last() =~= v@.take(i as int));
            assert(next.last() == v@[i as int]);
        }
        if v[i] != ' ' {
            r.push(v[i]);
        }
    }
    proof {
        assert(v@.take(n as int) =~= v@);
    }
    r
}

/// Strikes the characters that match from the start, then those that match from the end, and
/// rates what is left of the longer name.
fn left_to_right_then_right_to_left_processing(name1: String, name2: &str) -> (r: usize)
    ensures
        r == unmatched_rating(name1@, name2@),
{
    let mut n1 = chars_of(name1.as_str());
    let mut n2 = chars_of(name2);
    let len1 = n1.len();
    let len2 = n2.len();
    let front = if len1 < len2 {
        len1
    } else {
        len2
    };
    for i in 0..front
        invariant
            front <= len1,
            front <= len2,
            front == (if name1@.len() < name2@.len() { name1@.len() as int } else { name2@.len() as int }),
            len1 == name1@.len(),
            len2 == name2@.len(),
            n1@.len() == len1,
            n2@.len() == len2,
            forall|j: int|
                0 <= j < len1 ==> #[trigger] n1@[j] == if j < i && j < len2 && name1@[j]
                    == name2@[j] {
                    ' '
                } else {
                    name1@[j]
                },
            forall|j: int|
                0 <= j < len2 ==> #[trigger] n2@[j] == if j < i && j < len1 && name2@[j]
                    == name1@[j] {
                    ' '
                } else {
                    name2@[j]
                },
    {
        if n1[i] == n2[i] {
            n1.set(i, ' ');
            n2.set(i, ' ');
        }
    }
    proof {
        assert(n1@ =~= blank_front_matches(name1@, name2@));
        assert(n2@ =~= blank_front_matches(name2@, name1@));
    }
    let a = remove_spaces(&n1);
    let b = remove_spaces(&n2);
    let la = a.len();
    let lb = b.len();
    let back = if la < lb {
        la
    } else {
        lb
    };
    let mut matched: usize = 0;
    for i in 0..back
        invariant
            la == a@.len(),
            lb == b@.len(),
            back <= la,
            back <= lb,
            matched == back_matches(a@, b@, i as int),
            matched <= i,
    {
        proof {
            lemma_back_matches_bounded(a@, b@, i as int);
        }
        if a[la - 1 - i] == b[lb - 1 - i] {
            matched = matched + 1;
        }
    }
    // The names hold no spaces once struck characters are removed, so striking `matched`
    // characters from the end leaves `len - matched` of each.
    let r1 = la - matched;
    let r2 = lb - matched;
    if r1 > r2 {
        if r1 > 6 {
            r1 - 6
        } else {
            6 - r1
        }
    } else {
        if r2 > 6 {
            r2 - 6
        } else {
            6 - r2
        }
    }
}

/// Number of characters of `s` that are not whitespace, up to two.
fn non_whitespace_at_least_two(s: &str) -> (r: bool)
    ensures
        r == (non_whitespace_count(s@) >= 2),
{
    let chars = chars_of(s);
    let n = chars.len();
    let mut count: usize = 0;
    for i in 0..n
        invariant
            n == chars.len(),
            chars@ == s@,
            count == non_whitespace_count(s@.take(i as int)),
            count <= i,
    {
        proof {
            let next = s@.take(i + 1);
            assert(next.drop_last() =~= s@.take(i as int));
        }
        let c = chars[i];
        if !(c == ' ' || c == '\t' || c == '\n' || c == '\u{0b}' || c == '\u{0c}' || c == '\r') {
            count = count + 1;
        }
    }
    proof {
        assert(s@.take(n as int) =~= s@);
    }
    count >= 2
}

/// Rule
pub struct MatchRatingRule {
    /// Pre-encoded target string
    encoded_target: String,
}

impl MatchRatingRule {
    /// Codes are at most six characters long.
    #[verifier::type_invariant]
    spec fn code_fits(self) -> bool {
        self.encoded_target@.len() <= 6
    }

    /// The code of the target string.
    pub closed spec fn target_code(&self) -> Seq<char> {
        self.encoded_target@
    }

    /// Creates an instance of match rating rule with pre-computed target string encoding
    pub fn new(target_str: &str) -> (r: Self)
        requires
            match_rating_domain(target_str@),
        ensures
            r.target_code() == match_rating_encoding(target_str@),
            all_ascii(r.target_code()),
            r.target_code().len() <= 6,
    {
        MatchRatingRule { encoded_target: match_rating_encode(target_str) }
    }
}

impl Clone for MatchRatingRule {
    fn clone(&self) -> (r: Self)
        ensures
            r.target_code() == self.target_code(),
    {
        proof {
            use_type_invariant(self);
        }
        MatchRatingRule { encoded_target: self.encoded_target.clone() }
    }
}

/// metadata
#[derive(Clone, Copy)]
pub struct MatchRatingMetadata;

impl RuleMetadata for MatchRatingMetadata {
    open spec fn spec_rule_name() -> Seq<char> {
        "match_rating"@
    }

    fn rule_name() -> (r: &'static str) {
        "match_rating"
    }

    open spec fn spec_generic(&self) -> Map<Seq<char>, MetaValueView> {
        Map::empty()
    }

    fn to_generic(&self) -> (r: Metadata) {
        Metadata::new()
    }
}

/// Whether the codes of an input and a target are close enough to match.
pub open spec fn codes_match(input: Seq<char>, target: Seq<char>) -> bool {
    let d = input.len() - target.len();
    if d >= 3 || d <= -3 {
        false
    } else {
        unmatched_rating(input, target) >= minimum_rating((input.len() + target.len()) as int)
    }
}

/// Whether an input is compared by its code: when, trimmed of whitespace, it is longer than one
/// byte (at least two characters that are not whitespace, or any non-ASCII character).
pub open spec fn compared_by_code(input: Seq<char>) -> bool {
    non_whitespace_count(input) >= 2 || !all_ascii(input)
}

/// Whether the match rating rule matches: inputs that [`compared_by_code`] are compared by
/// their codes, shorter ones must equal the target.
pub open spec fn match_rating_match(input: Seq<char>, target: Seq<char>, target_code: Seq<char>) -> bool {
    if compared_by_code(input) {
        codes_match(match_rating_encoding(input), target_code)
    } else {
        input == target
    }
}

impl MatcherRule for MatchRatingRule {
    type OutputMetadata = MatchRatingMetadata;
    type Error = std::io::Error;

    open spec fn accepts(&self, input_str: &str, target_str: &str) -> bool {
        match_rating_domain(input_str@)
    }

    fn check_accepts(&self, input_str: &str, target_str: &str) -> (r: bool) {
        in_match_rating_domain(input_str)
    }

    fn match_rule(&self, input_str: &str, target_str: &str) -> (r: MatcherResult<
        MatchRatingMetadata,
        std::io::Error,
    >)
        ensures
            r is Ok,
            r->Ok_0.rule_type@ == "match_rating"@,
            r->Ok_0.matched == match_rating_match(input_str@, target_str@, self.target_code()),
    {
        proof {
            use_type_invariant(self);
        }
        let matches = if non_whitespace_at_least_two(input_str) || !input_str.is_ascii() {
            let input = match_rating_encode(input_str);
            let li = chars_of(input.as_str()).len();
            let lt = chars_of(self.encoded_target.as_str()).len();
            let far = if li > lt {
                li - lt >= 3
            } else {
                lt - li >= 3
            };
            if far {
                false
            } else {
                let min_rating = get_minimum_rating(li + lt);
                let count = left_to_right_then_right_to_left_processing(
                    input,
                    self.encoded_target.as_str(),
                );
                count >= min_rating
            }
        } else {
            str_eq(input_str, target_str)
        };
        if matches {
            MatcherResult::new_match(MatchRatingMetadata)
        } else {
            MatcherResult::new_no_match(MatchRatingMetadata)
        }
    }
}

} // verus!

verus! {

/// The numbers of characters of each name left unmatched: characters that match at the same
/// position from the start are struck out of both names, then characters that match at the
/// same position from the end.
pub open spec fn unmatched_counts(name1: Seq<char>, name2: Seq<char>) -> (int, int) {
    let a = without_spaces(blank_front_matches(name1, name2));
    let b = without_spaces(blank_front_matches(name2, name1));
    let k = if a.len() < b.len() {
        a.len() as int
    } else {
        b.len() as int
    };
    let m = back_matches(a, b, k);
    (a.len() - m, b.len() - m)
}

/// Removing spaces never lengthens a sequence.
proof fn lemma_without_spaces_len(s: Seq<char>)
    ensures
        without_spaces(s).len() <= s.len(),
    decreases s.len(),
{
    if s.len() > 0 {
        lemma_without_spaces_len(s.drop_last());
    }
}

/// At most `k` steps match from the end.
proof fn lemma_back_matches_at_most(a: Seq<char>, b: Seq<char>, k: int)
    ensures
        back_matches(a, b, k) <= if k > 0 { k } else { 0 },
    decreases k,
{
    if k > 0 {
        lemma_back_matches_at_most(a, b, k - 1);
    }
}

/// For codes of at most six characters, the rating is six less the larger of the two unmatched
/// counts: it is at most six less either count, and equal to one of them.
pub proof fn lemma_rating_counts_the_larger_remainder(name1: Seq<char>, name2: Seq<char>)
    requires
        name1.len() <= 6,
        name2.len() <= 6,
    ensures
        ({
            let (r1, r2) = unmatched_counts(name1, name2);
            &&& 0 <= r1 <= name1.len()
            &&& 0 <= r2 <= name2.len()
            &&& unmatched_rating(name1, name2) <= 6 - r1
            &&& unmatched_rating(name1, name2) <= 6 - r2
            &&& (unmatched_rating(name1, name2) == 6 - r1 || unmatched_rating(name1, name2)
                == 6 - r2)
        }),
{
    let a = without_spaces(blank_front_matches(name1, name2));
    let b = without_spaces(blank_front_matches(name2, name1));
    let k = if a.len() < b.len() {
        a.len() as int
    } else {
        b.len() as int
    };
    lemma_without_spaces_len(blank_front_matches(name1, name2));
    lemma_without_spaces_len(blank_front_matches(name2, name1));
    lemma_back_matches_at_most(a, b, k);
}

} // verus!
