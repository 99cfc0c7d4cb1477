//! Damerau-Levenshtein rule implementation
use vstd::prelude::*;
use vstd::string::StringSliceAdditionalSpecFns;

use crate::metadata::{MetaValue, MetaValueView, Metadata};
use crate::rule::{
    MatcherResultRuleMetadataExt, MatcherResultRuleOptionMetadataExt, MatcherRule, RuleMetadata,
};
use crate::rules::levenshtein::{byte_len_gap, min3, nat_abs_diff, MAX_DISTANCE_INPUT_LEN};
use crate::text::byte_slice;
use crate::MatcherResult;

verus! {

/// Restricted Damerau-Levenshtein (optimal string alignment) distance between two byte
/// strings: the least number of single-byte insertions, deletions, substitutions and
/// transpositions of adjacent bytes that turn `a` into `b`, where no substring is edited
/// more than once.
pub open spec fn rdamerau_distance(a: Seq<u8>, b: Seq<u8>) -> nat
    decreases a.len() + b.len(),
{
    if a.len() == 0 {
        b.len()
    } else if b.len() == 0 {
        a.len()
    } else {
        let edit = min3(
            rdamerau_distance(a.drop_last(), b) + 1,
            rdamerau_distance(a, b.drop_last()) + 1,
            rdamerau_distance(a.drop_last(), b.drop_last()) + if a.last() == b.last() {
                0nat
            } else {
                1nat
            },
        );
        if a.len() >= 2 && b.len() >= 2 && a[a.len() - 1] == b[b.len() - 2] && a[a.len() - 2]
            == b[b.len() - 1] {
            let transposed = rdamerau_distance(
                a.subrange(0, a.len() - 2),
                b.subrange(0, b.len() - 2),
            ) + 1;
            if transposed < edit {
                transposed
            } else {
                edit
            }
        } else {
            edit
        }
    }
}

/// The restricted Damerau-Levenshtein distance is at least the difference of the lengths
/// and at most the larger length.
pub proof fn lemma_rdamerau_bounds(a: Seq<u8>, b: Seq<u8>)
    ensures
        rdamerau_distance(a, b) >= nat_abs_diff(a.len(), b.len()),
        rdamerau_distance(a, b) <= if a.len() >= b.len() { a.len() } else { b.len() },
    decreases a.len() + b.len(),
{
    if a.len() > 0 && b.len() > 0 {
        lemma_rdamerau_bounds(a.drop_last(), b);
        lemma_rdamerau_bounds(a, b.drop_last());
        lemma_rdamerau_bounds(a.drop_last(), b.drop_last());
        if a.len() >= 2 && b.len() >= 2 {
            lemma_rdamerau_bounds(a.subrange(0, a.len() - 2), b.subrange(0, b.len() - 2));
        }
    }
}

/// Restricted Damerau-Levenshtein distance of two byte strings, computed by
/// `triple_accel::rdamerau_exp`.
///
/// Trusted: the crate documents the result as the restricted Damerau-Levenshtein distance
/// (adjacent transpositions, no substring edited more than once); this contract states that
/// it equals [`rdamerau_distance`], the recurrence its dynamic program evaluates. The length
/// bound keeps the crate's internal `u32` arithmetic from overflowing.
#[verifier::external_body]
fn rdamerau_exp(a: &[u8], b: &[u8]) -> (r: u32)
    requires
        a@.len() <= MAX_DISTANCE_INPUT_LEN,
        b@.len() <= MAX_DISTANCE_INPUT_LEN,
    ensures
        r == rdamerau_distance(a@, b@),
{
    triple_accel::rdamerau_exp(a, b)
}

/// Distance between two strings, over their UTF-8 bytes.
fn string_rdamerau(a: &str, b: &str) -> (r: u32)
    requires
        a.spec_bytes().len() <= MAX_DISTANCE_INPUT_LEN,
        b.spec_bytes().len() <= MAX_DISTANCE_INPUT_LEN,
    ensures
        r == rdamerau_distance(a.spec_bytes(), b.spec_bytes()),
{
    rdamerau_exp(a.as_bytes(), b.as_bytes())
}

/// Rule
#[derive(Clone, Copy)]
pub struct DamerauLevenshteinRule {
    /// Maximum distance allowed for this rule to be considered matched
    pub maximum_distance: u32,
    /// Uses hardcoded metadata for mismatches
    /// Makes the matcher faster, but makes the metadata invalid for mismatches
    pub ignore_mismatch_metadata: bool,
}

/// Damerau-Levenshtein rule which accepts substring matches too (substrings matching target
/// string in length): when the whole input is too far from the target, its windows of the
/// target's length are searched, and a window within the maximum distance is a match (see
/// [`lemma_substring_rule_finds_every_matching_window`]).
#[derive(Clone, Copy)]
pub struct DamerauLevenshteinSubstringRule {
    /// Maximum distance allowed for this rule to be considered matched
    pub maximum_distance: u32,
}

/// metadata
#[derive(Clone, Copy)]
pub struct DamerauLevenshteinMetadata {
    /// The distance between input and target
    pub distance: u32,
}

/// metadata
pub struct DamerauLevenshteinSubstringMetadata {
    /// The distance between the target and the input, or the part of the input reported in
    /// `substring`
    pub distance: u32,
    /// The part of the input that was compared last, when the whole input did not match
    pub substring: Option<String>,
}

impl RuleMetadata for DamerauLevenshteinMetadata {
    open spec fn spec_rule_name() -> Seq<char> {
        "damerau_levenshtein"@
    }

    fn rule_name() -> (r: &'static str) {
        "damerau_levenshtein"
    }

    open spec fn spec_generic(&self) -> Map<Seq<char>, MetaValueView> {
        Map::empty().insert("distance"@, MetaValueView::UInt(self.distance as u64))
    }

    fn to_generic(&self) -> (r: Metadata) {
        let mut m = Metadata::new();
        m.insert(String::from_str("distance"), MetaValue::UInt(self.distance as u64));
        m
    }
}

impl RuleMetadata for DamerauLevenshteinSubstringMetadata {
    open spec fn spec_rule_name() -> Seq<char> {
        "damerau_levenshtein_substring"@
    }

    fn rule_name() -> (r: &'static str) {
        "damerau_levenshtein_substring"
    }

    open spec fn spec_generic(&self) -> Map<Seq<char>, MetaValueView> {
        Map::empty().insert("distance"@, MetaValueView::UInt(self.distance as u64)).insert(
            "substring"@,
            match self.substring {
                Some(s) => MetaValueView::Str(s@),
                None => MetaValueView::Null,
            },
        )
    }

    fn to_generic(&self) -> (r: Metadata) {
        let mut m = Metadata::new();
        m.insert(String::from_str("distance"), MetaValue::UInt(self.distance as u64));
        let v = match &self.substring {
            Some(s) => MetaValue::Str(s.clone()),
            None => MetaValue::Null,
        };
        m.insert(String::from_str("substring"), v);
        m
    }
}

impl MatcherRule for DamerauLevenshteinRule {
    type OutputMetadata = Option<DamerauLevenshteinMetadata>;
    type Error = std::io::Error;

    open spec fn accepts(&self, input_str: &str, target_str: &str) -> bool {
        input_str.spec_bytes().len() <= MAX_DISTANCE_INPUT_LEN
            && target_str.spec_bytes().len() <= MAX_DISTANCE_INPUT_LEN
    }

    fn check_accepts(&self, input_str: &str, target_str: &str) -> (r: bool) {
        input_str.as_bytes().len() <= MAX_DISTANCE_INPUT_LEN
            && target_str.as_bytes().len() <= MAX_DISTANCE_INPUT_LEN
    }

    fn match_rule(&self, input_str: &str, target_str: &str) -> (r: MatcherResult<
        Option<DamerauLevenshteinMetadata>,
        std::io::Error,
    >)
        ensures
            r is Ok,
            r->Ok_0.rule_type@ == "damerau_levenshtein"@,
            r->Ok_0.matched == (rdamerau_distance(input_str.spec_bytes(), target_str.spec_bytes())
                <= self.maximum_distance),
            self.ignore_mismatch_metadata && nat_abs_diff(
                input_str.spec_bytes().len(),
                target_str.spec_bytes().len(),
            ) > self.maximum_distance ==> r->Ok_0.metadata is None,
            !(self.ignore_mismatch_metadata && nat_abs_diff(
                input_str.spec_bytes().len(),
                target_str.spec_bytes().len(),
            ) > self.maximum_distance) ==> r->Ok_0.metadata == Some(
                DamerauLevenshteinMetadata {
                    distance: rdamerau_distance(input_str.spec_bytes(), target_str.spec_bytes())
                        as u32,
                },
            ),
    {
        if self.ignore_mismatch_metadata && byte_len_gap(input_str, target_str)
            > self.maximum_distance as usize {
            proof {
                lemma_rdamerau_bounds(input_str.spec_bytes(), target_str.spec_bytes());
            }
            return MatcherResult::new_no_match_no_metadata();
        }
        let res = string_rdamerau(input_str, target_str);
        let metadata = DamerauLevenshteinMetadata { distance: res };
        if res <= self.maximum_distance {
            MatcherResult::new_match(metadata)
        } else {
            MatcherResult::new_no_match(metadata)
        }
    }
}

/// Distance between `t` and the window of `a` of length `t.len()` starting at `start`.
pub open spec fn window_distance(a: Seq<u8>, t: Seq<u8>, start: int) -> nat {
    rdamerau_distance(a.subrange(start, start + t.len()), t)
}

/// The step of the window search after a window at `start` with distance `res` above `max`:
/// half the excess distance, at least one, and never past the last window of `a`. Moving a
/// window by one position changes its distance by at most two, so no window within the step
/// can be within `max`.
pub open spec fn window_step(a_len: int, t_len: int, max: nat, start: int, res: nat) -> int {
    let half = (res - max) / 2;
    let step = if half == 0 {
        1
    } else {
        half
    };
    let room = a_len - t_len - start;
    if step < room {
        step
    } else {
        room
    }
}

/// Where the window search of the substring rule continues after the window at `start`:
/// `None` when it stops there. A window with distance above `max` moves forward by
/// [`window_step`]; the search stops at a matching window or at the last window.
pub open spec fn next_window(a: Seq<u8>, t: Seq<u8>, max: nat, start: int) -> Option<int> {
    let res = window_distance(a, t, start);
    if res > max && start + t.len() < a.len() {
        Some(start + window_step(a.len() as int, t.len() as int, max, start, res))
    } else {
        None
    }
}

/// The window at which the search starting at `start` stops.
pub open spec fn final_window(a: Seq<u8>, t: Seq<u8>, max: nat, start: int) -> int
    decreases a.len() - start,
{
    if 0 <= start && start + t.len() <= a.len() {
        match next_window(a, t, max, start) {
            Some(next) => final_window(a, t, max, next),
            None => start,
        }
    } else {
        start
    }
}

/// The outcome of the substring rule on bytes `a` and target `t`: whether it matches, the
/// distance it reports, and the part of `a` it reports (when the whole of `a` does not match
/// and is longer than `t`).
pub open spec fn substring_outcome(a: Seq<u8>, t: Seq<u8>, max: nat) -> (bool, nat, Option<Seq<u8>>) {
    let whole = rdamerau_distance(a, t);
    if whole <= max {
        (true, whole, None)
    } else if a.len() > t.len() {
        let w = final_window(a, t, max, 0);
        (window_distance(a, t, w) <= max, window_distance(a, t, w), Some(a.subrange(w, w + t.len())))
    } else {
        (false, whole, None)
    }
}

/// Every window the search starting at `start` visits begins and ends on a character
/// boundary of `a` (slicing the input elsewhere would panic).
pub open spec fn windows_on_boundaries(a: Seq<u8>, t: Seq<u8>, max: nat, start: int) -> bool
    decreases a.len() - start,
{
    if 0 <= start && start + t.len() <= a.len() {
        &&& vstd::utf8::is_char_boundary(a, start)
        &&& vstd::utf8::is_char_boundary(a, start + t.len())
        &&& match next_window(a, t, max, start) {
            Some(next) => windows_on_boundaries(a, t, max, next),
            None => true,
        }
    } else {
        true
    }
}

/// The step of the window search, as [`window_step`] defines it.
fn search_step(input_len: usize, target_len: usize, max: u32, start: usize, res: u32) -> (r: usize)
    requires
        res > max,
        start + target_len < input_len,
    ensures
        r == window_step(input_len as int, target_len as int, max as nat, start as int, res as nat),
        1 <= r,
        start + r + target_len <= input_len,
{
    let half = ((res - max) / 2) as usize;
    let step = if half == 0 {
        1
    } else {
        half
    };
    let room = input_len - target_len - start;
    if step < room {
        step
    } else {
        room
    }
}

impl DamerauLevenshteinSubstringRule {
    /// Whether the inputs are within the length bound and every window that the search of
    /// [`MatcherRule::match_rule`] visits starts and ends on a character boundary of the input.
    fn windows_valid(&self, input_str: &str, target_str: &str) -> (r: bool)
        ensures
            r == (input_str.spec_bytes().len() <= MAX_DISTANCE_INPUT_LEN
                && target_str.spec_bytes().len() <= MAX_DISTANCE_INPUT_LEN && (rdamerau_distance(
                input_str.spec_bytes(),
                target_str.spec_bytes(),
            ) > self.maximum_distance ==> windows_on_boundaries(
                input_str.spec_bytes(),
                target_str.spec_bytes(),
                self.maximum_distance as nat,
                0,
            ))),
    {
        let a = input_str.as_bytes();
        let t = target_str.as_bytes();
        let ghost max = self.maximum_distance as nat;
        if a.len() > MAX_DISTANCE_INPUT_LEN || t.len() > MAX_DISTANCE_INPUT_LEN {
            return false;
        }
        let whole = rdamerau_exp(a, t);
        if whole <= self.maximum_distance {
            return true;
        }
        let input_len = a.len();
        let target_len = t.len();
        if target_len > input_len {
            return true;
        }
        let mut start: usize = 0;
        loop
            invariant
                a@ == input_str.spec_bytes(),
                t@ == target_str.spec_bytes(),
                max == self.maximum_distance as nat,
                input_len == a@.len(),
                target_len == t@.len(),
                input_len <= MAX_DISTANCE_INPUT_LEN,
                target_len <= MAX_DISTANCE_INPUT_LEN,
                start + target_len <= input_len,
                rdamerau_distance(a@, t@) > max,
                windows_on_boundaries(a@, t@, max, 0) == windows_on_boundaries(
                    a@,
                    t@,
                    max,
                    start as int,
                ),
            decreases input_len - start,
        {
            if !input_str.is_char_boundary(start) || !input_str.is_char_boundary(
                start + target_len,
            ) {
                assert(!windows_on_boundaries(a@, t@, max, start as int));
                return false;
            }
            let window = vstd::slice::slice_subrange(a, start, start + target_len);
            let res = rdamerau_exp(window, t);
            assert(res == window_distance(a@, t@, start as int));
            if res > self.maximum_distance && start + target_len < input_len {
                let diff = search_step(input_len, target_len, self.maximum_distance, start, res);
                assert(next_window(a@, t@, max, start as int) == Some(start + diff));
                start = start + diff;
            } else {
                assert(next_window(a@, t@, max, start as int) is None);
                return true;
            }
        }
    }
}

impl MatcherRule for DamerauLevenshteinSubstringRule {
    type OutputMetadata = Option<DamerauLevenshteinSubstringMetadata>;
    type Error = std::io::Error;

    open spec fn accepts(&self, input_str: &str, target_str: &str) -> bool {
        &&& input_str.spec_bytes().len() <= MAX_DISTANCE_INPUT_LEN
        &&& target_str.spec_bytes().len() <= MAX_DISTANCE_INPUT_LEN
        &&& (rdamerau_distance(input_str.spec_bytes(), target_str.spec_bytes())
            > self.maximum_distance ==> windows_on_boundaries(
            input_str.spec_bytes(),
            target_str.spec_bytes(),
            self.maximum_distance as nat,
            0,
        ))
    }

    fn check_accepts(&self, input_str: &str, target_str: &str) -> (r: bool) {
        self.windows_valid(input_str, target_str)
    }

    fn match_rule(&self, input_str: &str, target_str: &str) -> (r: MatcherResult<
        Option<DamerauLevenshteinSubstringMetadata>,
        std::io::Error,
    >)
        ensures
            r is Ok,
            r->Ok_0.rule_type@ == "damerau_levenshtein_substring"@,
            r->Ok_0.metadata is Some,
            ({
                let a = input_str.spec_bytes();
                let t = target_str.spec_bytes();
                let max = self.maximum_distance as nat;
                let whole = rdamerau_distance(a, t);
                let m = r->Ok_0.metadata->Some_0;
                if whole <= max {
                    &&& r->Ok_0.matched
                    &&& m.distance == whole
                    &&& m.substring is None
                } else if a.len() > t.len() {
                    let w = final_window(a, t, max, 0);
                    &&& m.distance == window_distance(a, t, w)
                    &&& m.substring is Some
                    &&& vstd::utf8::encode_utf8(m.substring->Some_0@) == a.subrange(
                        w,
                        w + t.len(),
                    )
                    &&& r->Ok_0.matched == (window_distance(a, t, w) <= max)
                } else {
                    &&& !r->Ok_0.matched
                    &&& m.distance == whole
                    &&& m.substring is None
                }
            }),
    {
        let ghost a = input_str.spec_bytes();
        let ghost t = target_str.spec_bytes();
        let ghost max = self.maximum_distance as nat;
        let res = string_rdamerau(input_str, target_str);
        if res <= self.maximum_distance {
            return MatcherResult::new_match(
                DamerauLevenshteinSubstringMetadata { distance: res, substring: None },
            );
        }
        let input_len = input_str.as_bytes().len();
        let target_len = target_str.as_bytes().len();
        if input_len > target_len {
            let mut start: usize = 0;
            let mut substring = byte_slice(input_str, start, target_len);
            let mut res = string_rdamerau(substring, target_str);
            while res > self.maximum_distance && start + target_len < input_len
                invariant_except_break
                    a == input_str.spec_bytes(),
                    t == target_str.spec_bytes(),
                    max == self.maximum_distance as nat,
                    input_len == a.len(),
                    target_len == t.len(),
                    a.len() <= MAX_DISTANCE_INPUT_LEN,
                    t.len() <= MAX_DISTANCE_INPUT_LEN,
                    start + target_len <= input_len,
                    substring.spec_bytes() == a.subrange(start as int, start + target_len),
                    res == window_distance(a, t, start as int),
                    windows_on_boundaries(a, t, max, start as int),
                    final_window(a, t, max, start as int) == final_window(a, t, max, 0),
                ensures
                    start + target_len <= input_len,
                    substring.spec_bytes() == a.subrange(start as int, start + target_len),
                    res == window_distance(a, t, start as int),
                    final_window(a, t, max, start as int) == start,
                    final_window(a, t, max, start as int) == final_window(a, t, max, 0),
                decreases input_len - start,
            {
                let diff = search_step(input_len, target_len, self.maximum_distance, start, res);
                assert(next_window(a, t, max, start as int) == Some(start + diff));
                assert(windows_on_boundaries(a, t, max, start + diff));
                start = start + diff;
                assert(vstd::utf8::is_char_boundary(a, start as int));
                substring = byte_slice(input_str, start, target_len);
                res = string_rdamerau(substring, target_str);
            }
            assert(final_window(a, t, max, start as int) == start);
            let metadata = DamerauLevenshteinSubstringMetadata {
                distance: res,
                substring: Some(substring.to_owned()),
            };
            proof {
                vstd::utf8::encode_utf8_valid_utf8(substring@);
            }
            if res <= self.maximum_distance {
                MatcherResult::new_match(metadata)
            } else {
                MatcherResult::new_no_match(metadata)
            }
        } else {
            MatcherResult::new_no_match(
                DamerauLevenshteinSubstringMetadata { distance: res, substring: None },
            )
        }
    }
}

} // verus!

verus! {

/// The distance is at most the edit and transposition options of its recurrence (when they
/// apply).
proof fn lemma_rdamerau_options(a: Seq<u8>, b: Seq<u8>)
    requires
        a.len() > 0,
        b.len() > 0,
    ensures
        rdamerau_distance(a, b) <= rdamerau_distance(a.drop_last(), b) + 1,
        rdamerau_distance(a, b) <= rdamerau_distance(a, b.drop_last()) + 1,
        rdamerau_distance(a, b) <= rdamerau_distance(a.drop_last(), b.drop_last()) + if a.last()
            == b.last() {
            0nat
        } else {
            1nat
        },
        a.len() >= 2 && b.len() >= 2 && a[a.len() - 1] == b[b.len() - 2] && a[a.len() - 2] == b[b.len()
            - 1] ==> rdamerau_distance(a, b) <= rdamerau_distance(
            a.subrange(0, a.len() - 2),
            b.subrange(0, b.len() - 2),
        ) + 1,
{
}

/// The distance of `a` and `b` is one of the options of its recurrence.
proof fn lemma_rdamerau_is_an_option(a: Seq<u8>, b: Seq<u8>)
    requires
        a.len() > 0,
        b.len() > 0,
    ensures
        rdamerau_distance(a, b) == rdamerau_distance(a.drop_last(), b) + 1 || rdamerau_distance(a, b)
            == rdamerau_distance(a, b.drop_last()) + 1 || rdamerau_distance(a, b)
            == rdamerau_distance(a.drop_last(), b.drop_last()) + (if a.last() == b.last() {
            0nat
        } else {
            1nat
        }) || (a.len() >= 2 && b.len() >= 2 && a[a.len() - 1] == b[b.len() - 2] && a[a.len() - 2]
            == b[b.len() - 1] && rdamerau_distance(a, b) == rdamerau_distance(
            a.subrange(0, a.len() - 2),
            b.subrange(0, b.len() - 2),
        ) + 1),
{
}

/// Dropping the last byte raises the distance by at most one.
proof fn lemma_rdamerau_drop_last(a: Seq<u8>, b: Seq<u8>)
    requires
        a.len() > 0,
    ensures
        rdamerau_distance(a.drop_last(), b) <= rdamerau_distance(a, b) + 1,
    decreases a.len() + b.len(),
{
    let x = a.drop_last();
    if b.len() == 0 {
    } else {
        lemma_rdamerau_is_an_option(a, b);
        if x.len() == 0 {
            lemma_rdamerau_bounds(a, b);
        } else {
            lemma_rdamerau_options(x, b);
            lemma_rdamerau_drop_last(a, b.drop_last());
            if a.len() >= 2 && b.len() >= 2 && a[a.len() - 1] == b[b.len() - 2] && a[a.len() - 2]
                == b[b.len() - 1] {
                let a2 = a.subrange(0, a.len() - 2);
                let b2 = b.subrange(0, b.len() - 2);
                assert(x.drop_last() =~= a2);
                assert(x.last() == b.last());
                assert(b.drop_last().drop_last() =~= b2);
                if a2.len() > 0 {
                    lemma_rdamerau_options(a2, b.drop_last());
                } else {
                    lemma_rdamerau_bounds(a2, b.drop_last());
                    lemma_rdamerau_bounds(a2, b2);
                }
            }
        }
    }
}

/// Putting a byte in front raises the distance by at most one.
proof fn lemma_rdamerau_prepend(a: Seq<u8>, b: Seq<u8>)
    requires
        a.len() > 0,
    ensures
        rdamerau_distance(a, b) <= rdamerau_distance(a.drop_first(), b) + 1,
    decreases a.len() + b.len(),
{
    let u = a.drop_first();
    if b.len() == 0 {
    } else if u.len() == 0 {
        lemma_rdamerau_bounds(a, b);
    } else {
        let d = rdamerau_distance(a, b);
        lemma_rdamerau_is_an_option(u, b);
        lemma_rdamerau_options(a, b);
        assert(a.drop_last().drop_first() =~= u.drop_last());
        assert(a.last() == u.last());
        if rdamerau_distance(u, b) == rdamerau_distance(u.drop_last(), b) + 1 {
            lemma_rdamerau_prepend(a.drop_last(), b);
        } else if rdamerau_distance(u, b) == rdamerau_distance(u, b.drop_last()) + 1 {
            lemma_rdamerau_prepend(a, b.drop_last());
        } else if rdamerau_distance(u, b) == rdamerau_distance(u.drop_last(), b.drop_last()) + (
        if u.last() == b.last() {
            0nat
        } else {
            1nat
        }) {
            lemma_rdamerau_prepend(a.drop_last(), b.drop_last());
        } else {
            let a2 = a.subrange(0, a.len() - 2);
            let b2 = b.subrange(0, b.len() - 2);
            assert(u.len() >= 2 && b.len() >= 2);
            lemma_rdamerau_prepend(a2, b2);
            assert(a2.drop_first() =~= u.subrange(0, u.len() - 2));
            assert(a[a.len() - 1] == u[u.len() - 1]);
            assert(a[a.len() - 2] == u[u.len() - 2]);
        }
    }
}

/// Moving a window `k` positions forward lowers its distance by at most `2 * k`.
proof fn lemma_window_shift(a: Seq<u8>, t: Seq<u8>, s: int, k: int)
    requires
        0 <= s,
        0 <= k,
        s + k + t.len() <= a.len(),
    ensures
        window_distance(a, t, s + k) + 2 * k >= window_distance(a, t, s),
    decreases k,
{
    if k > 0 {
        lemma_window_shift(a, t, s, k - 1);
        let m = t.len() as int;
        let p = s + k - 1;
        let w = a.subrange(p, p + m);
        let next = a.subrange(p + 1, p + 1 + m);
        if m == 0 {
            assert(w =~= next);
        } else {
            lemma_rdamerau_prepend(w, t);
            lemma_rdamerau_drop_last(next, t);
            assert(w.drop_first() =~= next.drop_last());
        }
    }
}

/// The search from `start` ends at a window within `max` whenever one lies at or after
/// `start`.
proof fn lemma_search_reaches_match(a: Seq<u8>, t: Seq<u8>, max: nat, start: int, p: int)
    requires
        0 <= start <= p,
        p + t.len() <= a.len(),
        window_distance(a, t, p) <= max,
    ensures
        window_distance(a, t, final_window(a, t, max, start)) <= max,
    decreases a.len() - start,
{
    let res = window_distance(a, t, start);
    match next_window(a, t, max, start) {
        None => {
            if res > max {
                assert(p == start);
            }
        },
        Some(next) => {
            let step = window_step(a.len() as int, t.len() as int, max, start, res);
            assert(next == start + step);
            if p < next {
                let j = p - start;
                if j > 0 {
                    lemma_window_shift(a, t, start, j);
                    assert(2 * j <= res - max - 2) by {
                        assert(j < step);
                        assert(step <= (res - max) / 2 || step == 1);
                    }
                }
                assert(false);
            }
            lemma_search_reaches_match(a, t, max, next, p);
        },
    }
}

/// The substring rule misses no window: when some window of the input, of the target's
/// length, is within the maximum distance, the rule matches.
pub proof fn lemma_substring_rule_finds_every_matching_window(
    a: Seq<u8>,
    t: Seq<u8>,
    max: nat,
    p: int,
)
    requires
        0 <= p,
        p + t.len() <= a.len(),
        window_distance(a, t, p) <= max,
    ensures
        substring_outcome(a, t, max).0,
{
    if rdamerau_distance(a, t) > max && a.len() > t.len() {
        lemma_search_reaches_match(a, t, max, 0, p);
    } else if rdamerau_distance(a, t) > max {
        assert(a.subrange(p, p + t.len()) =~= a);
    }
}

} // verus!
