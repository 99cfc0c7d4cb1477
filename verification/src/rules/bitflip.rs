//! Bitflip rule implementation
use vstd::prelude::*;

use std::collections::HashMap;

use crate::metadata::{MetaValueView, Metadata};
use crate::rule::{MatcherResultRuleMetadataExt, MatcherRule, RuleMetadata};
use crate::text::{
    ascii_byte, char_is_ascii, chars_of, lowercase, str_eq, string_from_chars, string_views,
    to_lowercase,
};
use crate::MatcherResult;

verus! {

broadcast use vstd::std_specs::hash::group_hash_axioms;

/// The masks that flip exactly one bit of a byte.
pub open spec fn is_bitflip_pattern(p: u8) -> bool {
    p == 0x80 || p == 0x40 || p == 0x20 || p == 0x10 || p == 0x08 || p == 0x04 || p == 0x02
        || p == 0x01
}

/// The first `k` masks, from the highest bit down.
pub open spec fn is_bitflip_pattern_before(p: u8, k: int) -> bool {
    ||| (k > 0 && p == 0x80)
    ||| (k > 1 && p == 0x40)
    ||| (k > 2 && p == 0x20)
    ||| (k > 3 && p == 0x10)
    ||| (k > 4 && p == 0x08)
    ||| (k > 5 && p == 0x04)
    ||| (k > 6 && p == 0x02)
    ||| (k > 7 && p == 0x01)
}

/// Whether `f` differs from `c` in exactly one bit.
pub open spec fn is_bitflip(c: u8, f: u8) -> bool {
    is_bitflip_pattern(c ^ f)
}

/// The bitflips of `c` that stay within `valid_chars`, for `c` itself in `valid_chars`.
pub open spec fn valid_bitflip(valid_chars: Seq<u8>, c: u8, f: u8) -> bool {
    valid_chars.contains(c) && valid_chars.contains(f) && is_bitflip(c, f)
}

/// Whether `flips` maps each byte to bitflips that stay within `valid_chars`, and holds every
/// such bitflip of each valid byte.
pub open spec fn is_bitflip_table(flips: Map<u8, Vec<u8>>, valid_chars: Seq<u8>) -> bool {
    &&& forall|c: u8, f: u8|
        #![trigger flips[c]@.contains(f)]
        flips.contains_key(c) && flips[c]@.contains(f) ==> valid_bitflip(valid_chars, c, f)
    &&& forall|c: u8, f: u8|
        #[trigger] valid_bitflip(valid_chars, c, f) ==> flips.contains_key(c)
            && flips[c]@.contains(f)
}

/// The strings obtained from `target` by replacing one ASCII character with one of its
/// bitflips that stays within `valid_chars`.
pub open spec fn bitflip_variants(target: Seq<char>, valid_chars: Seq<u8>) -> Set<Seq<char>> {
    Set::new(
        |s: Seq<char>|
            exists|i: int, f: u8|
                #![trigger valid_bitflip(valid_chars, target[i] as u8, f)]
                0 <= i < target.len() && target[i] <= '\u{7f}' && valid_bitflip(
                    valid_chars,
                    target[i] as u8,
                    f,
                ) && s == target.update(i, f as char),
    )
}

/// The cache of strings that a rule built for `target` matches.
pub open spec fn bitflip_cache(target: Seq<char>, valid_chars: Seq<u8>, case_sensitive: bool) -> Set<
    Seq<char>,
> {
    if case_sensitive {
        bitflip_variants(target, valid_chars)
    } else {
        bitflip_variants(target, valid_chars).map(|s: Seq<char>| lowercase(s))
    }
}

/// A bitflip variant never equals its target: flipping a bit always changes the character.
pub proof fn lemma_target_is_not_a_bitflip_variant(target: Seq<char>, valid_chars: Seq<u8>)
    ensures
        !bitflip_variants(target, valid_chars).contains(target),
{
    if bitflip_variants(target, valid_chars).contains(target) {
        let (i, f) = choose|i: int, f: u8|
            #![trigger valid_bitflip(valid_chars, target[i] as u8, f)]
            0 <= i < target.len() && target[i] <= '\u{7f}' && valid_bitflip(
                valid_chars,
                target[i] as u8,
                f,
            ) && target == target.update(i, f as char);
        let c = target[i] as u8;
        assert(target.update(i, f as char)[i] == f as char);
        assert(f != c) by (bit_vector)
            requires
                is_bitflip_pattern(c ^ f),
        ;
    }
}

/// Every bitflip variant has the length of its target and differs from it in exactly one
/// character, which is a one-bit flip of the target's character there.
pub proof fn lemma_variant_differs_in_one_char(target: Seq<char>, valid_chars: Seq<u8>, s: Seq<char>)
    requires
        bitflip_variants(target, valid_chars).contains(s),
    ensures
        s.len() == target.len(),
        exists|i: int|
            0 <= i < target.len() && s[i] != target[i] && #[trigger] is_bitflip(
                target[i] as u8,
                s[i] as u8,
            ) && forall|j: int| 0 <= j < target.len() && j != i ==> s[j] == target[j],
{
    let (i, f) = choose|i: int, f: u8|
        #![trigger valid_bitflip(valid_chars, target[i] as u8, f)]
        0 <= i < target.len() && target[i] <= '\u{7f}' && valid_bitflip(
            valid_chars,
            target[i] as u8,
            f,
        ) && s == target.update(i, f as char);
    let c = target[i] as u8;
    assert(f != c) by (bit_vector)
        requires
            is_bitflip_pattern(c ^ f),
    ;
    assert(s[i] == f as char);
    assert(s[i] as u8 == f);
    assert(is_bitflip(target[i] as u8, s[i] as u8));
}

/// A set of strings, held in a `std::collections::HashSet<String>`.
#[verifier::external_body]
pub struct MatchSet {
    set: std::collections::HashSet<String>,
}

/// The strings held by a [`MatchSet`].
pub uninterp spec fn match_set_contents(set: MatchSet) -> Set<Seq<char>>;

impl MatchSet {
    /// `HashSet::from_iter` over copies of `items`.
    ///
    /// Trusted: the set holds exactly the strings of `items`.
    #[verifier::external_body]
    fn from_strings(items: &Vec<String>) -> (r: MatchSet)
        ensures
            match_set_contents(r) == string_views(items@).to_set(),
    {
        MatchSet { set: std::collections::HashSet::from_iter(items.iter().cloned()) }
    }

    /// `HashSet::contains`.
    ///
    /// Trusted: the answer is whether `s` is one of the strings of the set (`String` compares
    /// and hashes by its characters).
    #[verifier::external_body]
    fn contains(&self, s: &str) -> (r: bool)
        ensures
            r == match_set_contents(*self).contains(s@),
    {
        self.set.contains(s)
    }

    /// `Clone::clone` of the `HashSet`.
    ///
    /// Trusted: the copy holds the same strings.
    #[verifier::external_body]
    fn duplicate(&self) -> (r: MatchSet)
        ensures
            match_set_contents(r) == match_set_contents(*self),
    {
        MatchSet { set: self.set.clone() }
    }
}

/// Rule
pub struct BitflipRule {
    matches_cache: MatchSet,
    case_sensitive: bool,
    target: String,
    valid_chars: Vec<u8>,
    bitflips: HashMap<u8, Vec<u8>>,
}

impl BitflipRule {
    /// The table holds the valid bitflips, and the cache what the rule matches for the target
    /// it was built for.
    #[verifier::type_invariant]
    spec fn cache_matches_target(self) -> bool {
        &&& is_bitflip_table(self.bitflips@, self.valid_chars@)
        &&& match_set_contents(self.matches_cache) == bitflip_cache(
            self.target@,
            self.valid_chars@,
            self.case_sensitive,
        )
    }

    /// The strings this rule matches for the target it was built for.
    pub closed spec fn cache(&self) -> Set<Seq<char>> {
        match_set_contents(self.matches_cache)
    }

    /// Whether matching is case sensitive.
    pub closed spec fn is_case_sensitive(&self) -> bool {
        self.case_sensitive
    }

    /// The characters that flipped characters must stay within.
    pub closed spec fn valid(&self) -> Seq<u8> {
        self.valid_chars@
    }

    /// The target the rule was built for.
    pub closed spec fn built_target(&self) -> Seq<char> {
        self.target@
    }

    /// Creates a new instance of [`BitflipRule`], with cached bitflips for the target string.
    ///
    /// Bitflips are limited to provided valid characters. Each ASCII character of the target is
    /// flipped in place, by its character position; other characters are left alone.
    pub fn new(valid_chars: &Vec<u8>, target_str: &str, case_sensitive: bool) -> (r: Self)
        ensures
            r.cache() == bitflip_cache(target_str@, valid_chars@, case_sensitive),
            r.is_case_sensitive() == case_sensitive,
            r.valid() == valid_chars@,
            r.built_target() == target_str@,
    {
        let bitflips = Self::calculate_bitflips_for_chars(valid_chars);
        let cache = Self::matches_for_target(target_str, &bitflips, Ghost(valid_chars@), case_sensitive);
        BitflipRule {
            matches_cache: MatchSet::from_strings(&cache),
            case_sensitive,
            target: target_str.to_string(),
            valid_chars: valid_chars.clone(),
            bitflips,
        }
    }

    /// Creates a new instance of [`BitflipRule`], with cached bitflips for the target string.
    ///
    /// Bitflips are limited to chars valid in DNS context (a-z,A-Z,0-9,-,.).
    pub fn new_dns(target_str: &str, case_sensitive: bool) -> (r: Self)
        ensures
            r.cache() == bitflip_cache(target_str@, dns_chars(), case_sensitive),
            r.is_case_sensitive() == case_sensitive,
            r.valid() == dns_chars(),
            r.built_target() == target_str@,
    {
        let valid_chars = dns_char_list();
        Self::new(&valid_chars, target_str, case_sensitive)
    }

    /// Creates a new instance of [`BitflipRule`], with cached bitflips for the target string.
    ///
    /// Bitflips are limited to printable ASCII characters.
    pub fn new_ascii_printable(target_str: &str, case_sensitive: bool) -> (r: Self)
        ensures
            r.cache() == bitflip_cache(target_str@, printable_chars(), case_sensitive),
            r.is_case_sensitive() == case_sensitive,
            r.valid() == printable_chars(),
            r.built_target() == target_str@,
    {
        let valid_chars = byte_range(0x21, 0x7f);
        assert(valid_chars@ == printable_chars());
        Self::new(&valid_chars, target_str, case_sensitive)
    }

    /// Maps each valid character to its bitflips that are valid characters too.
    fn calculate_bitflips_for_chars(valid_chars: &Vec<u8>) -> (flips: HashMap<u8, Vec<u8>>)
        ensures
            is_bitflip_table(flips@, valid_chars@),
    {
        let mut flips: HashMap<u8, Vec<u8>> = HashMap::new();
        assert(flips@ == Map::<u8, Vec<u8>>::empty());
        let n = valid_chars.len();
        for ci in 0..n
            invariant
                n == valid_chars.len(),
                forall|x: u8, y: u8|
                    #![trigger flips@[x]@.contains(y)]
                    flips@.contains_key(x) && flips@[x]@.contains(y) ==> valid_bitflip(
                        valid_chars@,
                        x,
                        y,
                    ),
                forall|x: u8, y: u8|
                    #[trigger] valid_bitflip(valid_chars@, x, y) && valid_chars@.take(ci as int).contains(x)
                        ==> flips@.contains_key(x) && flips@[x]@.contains(y),
        {
            let c = valid_chars[ci];
            let mut k: u32 = 0;
            while k < 8
                invariant
                    k <= 8,
                    n == valid_chars.len(),
                    ci < n,
                    c == valid_chars@[ci as int],
                    forall|x: u8, y: u8|
                        #![trigger flips@[x]@.contains(y)]
                        flips@.contains_key(x) && flips@[x]@.contains(y) ==> valid_bitflip(
                            valid_chars@,
                            x,
                            y,
                        ),
                    forall|x: u8, y: u8|
                        #[trigger] valid_bitflip(valid_chars@, x, y) && valid_chars@.take(ci as int).contains(
                            x,
                        ) ==> flips@.contains_key(x) && flips@[x]@.contains(y),
                    forall|y: u8|
                        #![trigger is_bitflip_pattern_before(c ^ y, k as int)]
                        valid_chars@.contains(y) && is_bitflip_pattern_before(c ^ y, k as int)
                            ==> flips@.contains_key(c) && flips@[c]@.contains(y),
                decreases 8 - k,
            {
                let p: u8 = 0x80u8 >> k;
                let flipped = c ^ p;
                assert(c ^ flipped == p && is_bitflip_pattern(p)) by (bit_vector)
                    requires
                        p == 0x80u8 >> k,
                        k < 8,
                        flipped == c ^ p,
                ;
                let ghost before = flips@;
                if vec_contains_byte(valid_chars, flipped) {
                    let mut list = match flips.remove(&c) {
                        Some(l) => l,
                        None => Vec::new(),
                    };
                    let ghost old_list = list@;
                    assert(before.contains_key(c) ==> old_list == before[c]@);
                    assert(!before.contains_key(c) ==> old_list == Seq::<u8>::empty());
                    list.push(flipped);
                    flips.insert(c, list);
                    assert(flips@ == before.remove(c).insert(c, list));
                    assert(valid_chars@.contains(c)) by {
                        assert(valid_chars@[ci as int] == c);
                    }
                    assert forall|x: u8, y: u8|
                        flips@.contains_key(x) && #[trigger] flips@[x]@.contains(
                            y,
                        ) implies valid_bitflip(valid_chars@, x, y) by {
                        if x != c {
                            assert(before.contains_key(x) && before[x] == flips@[x]);
                        } else if y != flipped {
                            assert(old_list.contains(y));
                            assert(before.contains_key(c) && before[c]@.contains(y));
                        }
                    }
                    assert forall|x: u8, y: u8|
                        before.contains_key(x) && #[trigger] before[x]@.contains(
                            y,
                        ) implies flips@.contains_key(x) && flips@[x]@.contains(y) by {
                        if x == c {
                            assert(list@ == old_list.push(flipped));
                            let j = choose|j: int| 0 <= j < old_list.len() && old_list[j] == y;
                            assert(list@[j] == y);
                        }
                    }
                    assert(flips@[c]@.contains(flipped)) by {
                        assert(list@[list@.len() - 1] == flipped);
                    }
                }
                assert forall|y: u8|
                    valid_chars@.contains(y) && #[trigger] is_bitflip_pattern_before(
                        c ^ y,
                        k + 1,
                    ) implies flips@.contains_key(c) && flips@[c]@.contains(y) by {
                    if !is_bitflip_pattern_before(c ^ y, k as int) {
                        assert(y == flipped) by (bit_vector)
                            requires
                                p == 0x80u8 >> k,
                                k < 8,
                                flipped == c ^ p,
                                is_bitflip_pattern_before(c ^ y, k + 1),
                                !is_bitflip_pattern_before(c ^ y, k as int),
                        ;
                    } else {
                        assert(before.contains_key(c) && before[c]@.contains(y));
                    }
                }
                assert forall|x: u8, y: u8|
                    #[trigger] valid_bitflip(valid_chars@, x, y) && valid_chars@.take(
                        ci as int,
                    ).contains(x) implies flips@.contains_key(x) && flips@[x]@.contains(y) by {
                    assert(before.contains_key(x) && before[x]@.contains(y));
                }
                k = k + 1;
            }
            assert forall|c2: u8, f: u8|
                #[trigger] valid_bitflip(valid_chars@, c2, f) && valid_chars@.take(ci + 1).contains(
                    c2,
                ) implies flips@.contains_key(c2) && flips@[c2]@.contains(f) by {
                let taken = valid_chars@.take(ci + 1);
                let j = choose|j: int| 0 <= j < ci + 1 && #[trigger] taken[j] == c2;
                if j < ci {
                    assert(valid_chars@.take(ci as int)[j] == c2);
                } else {
                    assert(is_bitflip_pattern_before(c ^ f, 8));
                    assert(valid_chars@.contains(f));
                }
            }
        }
        assert(valid_chars@.take(n as int) =~= valid_chars@);
        flips
    }

    /// The strings obtained by flipping a bit of one ASCII character of the target, lowercased
    /// unless the rule is case sensitive.
    fn matches_for_target(
        target_str: &str,
        bitflips: &HashMap<u8, Vec<u8>>,
        Ghost(valid): Ghost<Seq<u8>>,
        case_sensitive: bool,
    ) -> (cache: Vec<String>)
        requires
            is_bitflip_table(bitflips@, valid),
        ensures
            string_views(cache@).to_set() == bitflip_cache(
                target_str@,
                valid,
                case_sensitive,
            ),
    {
        let target = chars_of(target_str);
        let mut cache: Vec<String> = Vec::new();
        let ghost t = target_str@;
        let n = target.len();
        for i in 0..n
            invariant
                n == target.len(),
                target@ == t,
                t == target_str@,
                is_bitflip_table(bitflips@, valid),
                forall|s: Seq<char>|
                    #![trigger string_views(cache@).contains(s)]
                    string_views(cache@).contains(s) <==> flipped_before(
                        t,
                        valid,
                        case_sensitive,
                        i as int,
                        s,
                    ),
        {
            let c = target[i];
            let ghost before = cache@;
            assert(forall|s: Seq<char>|
                #![trigger string_views(before).contains(s)]
                string_views(before).contains(s) <==> flipped_before(
                    t,
                    valid,
                    case_sensitive,
                    i as int,
                    s,
                ));
            if char_is_ascii(c) {
                let b: u8 = ascii_byte(c);
                assert(b == t[i as int] as u8);
                match bitflips.get(&b) {
                    Some(list) => {
                        let m = list.len();
                        for li in 0..m
                            invariant
                                m == list.len(),
                                bitflips@.contains_key(b) && bitflips@[b] == *list,
                                i < n,
                                n == target.len(),
                                target@ == t,
                                c == t[i as int],
                                b == c as u8,
                                forall|s: Seq<char>|
                                    #![trigger string_views(cache@).contains(s)]
                                    string_views(cache@).contains(s) <==> (string_views(
                                        before,
                                    ).contains(s) || exists|k: int|
                                        0 <= k < li && s == cached_form(
                                            t.update(i as int, list@[k] as char),
                                            case_sensitive,
                                        )),
                        {
                            let f = list[li];
                            let mut chars = target.clone();
                            chars.set(i, f as char);
                            let s = string_from_chars(&chars);
                            let s = if !case_sensitive {
                                to_lowercase(s.as_str())
                            } else {
                                s
                            };
                            let ghost old_cache = cache@;
                            cache.push(s);
                            proof {
                                lemma_push_view_contains(old_cache, cache@, s);
                                assert(s@ == cached_form(
                                    t.update(i as int, list@[li as int] as char),
                                    case_sensitive,
                                ));
                            }
                        }
                        proof {
                            assert forall|f: u8|
                                #[trigger] list@.contains(f) <==> valid_bitflip(
                                    valid,
                                    t[i as int] as u8,
                                    f,
                                ) by {
                                if list@.contains(f) {
                                    assert(bitflips@[b]@.contains(f));
                                }
                            }
                            lemma_step_with_flips(t, valid, case_sensitive, i as int, list@);
                            assert forall|s: Seq<char>|
                                #[trigger] string_views(cache@).contains(s) <==> flipped_before(
                                    t,
                                    valid,
                                    case_sensitive,
                                    i + 1,
                                    s,
                                ) by {
                                assert(string_views(before).contains(s) == flipped_before(
                                    t,
                                    valid,
                                    case_sensitive,
                                    i as int,
                                    s,
                                ));
                            }
                        }
                    },
                    None => {
                        proof {
                            assert forall|f: u8| !valid_bitflip(valid, b, f) by {
                                if valid_bitflip(valid, b, f) {
                                    assert(bitflips@.contains_key(b));
                                }
                            }
                            lemma_step_without_flips(t, valid, case_sensitive, i as int);
                            assert(forall|s: Seq<char>|
                                #![trigger string_views(cache@).contains(s)]
                                string_views(cache@).contains(s) <==> flipped_before(
                                    t,
                                    valid,
                                    case_sensitive,
                                    i + 1,
                                    s,
                                ));
                        }
                    },
                }
            } else {
                proof {
                    assert(c == t[i as int]);
                    lemma_step_without_flips(t, valid, case_sensitive, i as int);
                }
            }
            assert(forall|s: Seq<char>|
                #![trigger string_views(cache@).contains(s)]
                string_views(cache@).contains(s) <==> flipped_before(
                    t,
                    valid,
                    case_sensitive,
                    i + 1,
                    s,
                ));
        }
        proof {
            assert forall|s: Seq<char>|
                string_views(cache@).to_set().contains(s) <==> bitflip_cache(
                    t,
                    valid,
                    case_sensitive,
                ).contains(s) by {
                if string_views(cache@).contains(s) {
                    let (j, f) = choose|j: int, f: u8|
                        #![trigger valid_bitflip(valid, t[j] as u8, f)]
                        0 <= j < n && t[j] <= '\u{7f}' && valid_bitflip(valid, t[j] as u8, f)
                            && s == cached_form(t.update(j, f as char), case_sensitive);
                    assert(bitflip_variants(t, valid).contains(t.update(j, f as char)));
                }
                if bitflip_cache(t, valid, case_sensitive).contains(s) {
                    if case_sensitive {
                        let (j, f) = choose|j: int, f: u8|
                            #![trigger valid_bitflip(valid, t[j] as u8, f)]
                            0 <= j < t.len() && t[j] <= '\u{7f}' && valid_bitflip(
                                valid,
                                t[j] as u8,
                                f,
                            ) && s == t.update(j, f as char);
                        assert(flipped_before(t, valid, case_sensitive, n as int, s));
                    } else {
                        let v = choose|v: Seq<char>|
                            bitflip_variants(t, valid).contains(v) && lowercase(v) == s;
                        let (j, f) = choose|j: int, f: u8|
                            #![trigger valid_bitflip(valid, t[j] as u8, f)]
                            0 <= j < t.len() && t[j] <= '\u{7f}' && valid_bitflip(
                                valid,
                                t[j] as u8,
                                f,
                            ) && v == t.update(j, f as char);
                        assert(flipped_before(t, valid, case_sensitive, n as int, s));
                    }
                }
            }
            assert(string_views(cache@).to_set() =~= bitflip_cache(
                t,
                valid,
                case_sensitive,
            ));
        }
        cache
    }
}

/// Whether `s` is the cached form of a bitflip of one of the first `i` characters of `t`.
pub open spec fn flipped_before(
    t: Seq<char>,
    valid: Seq<u8>,
    case_sensitive: bool,
    i: int,
    s: Seq<char>,
) -> bool {
    exists|j: int, f: u8|
        #![trigger valid_bitflip(valid, t[j] as u8, f)]
        0 <= j < i && t[j] <= '\u{7f}' && valid_bitflip(valid, t[j] as u8, f) && s
            == cached_form(t.update(j, f as char), case_sensitive)
}

/// A character without valid bitflips adds no cached string.
proof fn lemma_step_without_flips(t: Seq<char>, valid: Seq<u8>, case_sensitive: bool, i: int)
    requires
        0 <= i < t.len(),
        t[i] <= '\u{7f}' ==> forall|f: u8| !#[trigger] valid_bitflip(valid, t[i] as u8, f),
    ensures
        forall|s: Seq<char>|
            flipped_before(t, valid, case_sensitive, i + 1, s) == flipped_before(
                t,
                valid,
                case_sensitive,
                i,
                s,
            ),
{
    assert forall|s: Seq<char>|
        flipped_before(t, valid, case_sensitive, i + 1, s) implies flipped_before(
            t,
            valid,
            case_sensitive,
            i,
            s,
        ) by {
        let (j, f) = choose|j: int, f: u8|
            #![trigger valid_bitflip(valid, t[j] as u8, f)]
            0 <= j < i + 1 && t[j] <= '\u{7f}' && valid_bitflip(valid, t[j] as u8, f) && s
                == cached_form(t.update(j, f as char), case_sensitive);
        assert(j != i);
    }
}

/// A character whose valid bitflips are `flips` adds their cached strings.
proof fn lemma_step_with_flips(
    t: Seq<char>,
    valid: Seq<u8>,
    case_sensitive: bool,
    i: int,
    flips: Seq<u8>,
)
    requires
        0 <= i < t.len(),
        t[i] <= '\u{7f}',
        forall|f: u8| #[trigger] flips.contains(f) <==> valid_bitflip(valid, t[i] as u8, f),
    ensures
        forall|s: Seq<char>|
            flipped_before(t, valid, case_sensitive, i + 1, s) == (flipped_before(
                t,
                valid,
                case_sensitive,
                i,
                s,
            ) || exists|k: int|
                0 <= k < flips.len() && s == cached_form(
                    t.update(i, flips[k] as char),
                    case_sensitive,
                )),
{
    assert forall|s: Seq<char>|
        flipped_before(t, valid, case_sensitive, i + 1, s) == (flipped_before(
            t,
            valid,
            case_sensitive,
            i,
            s,
        ) || exists|k: int|
            0 <= k < flips.len() && s == cached_form(
                t.update(i, flips[k] as char),
                case_sensitive,
            )) by {
        if flipped_before(t, valid, case_sensitive, i + 1, s) {
            let (j, f) = choose|j: int, f: u8|
                #![trigger valid_bitflip(valid, t[j] as u8, f)]
                0 <= j < i + 1 && t[j] <= '\u{7f}' && valid_bitflip(valid, t[j] as u8, f) && s
                    == cached_form(t.update(j, f as char), case_sensitive);
            if j == i {
                assert(flips.contains(f));
                let k = choose|k: int| 0 <= k < flips.len() && flips[k] == f;
                assert(s == cached_form(t.update(i, flips[k] as char), case_sensitive));
            }
        }
        if exists|k: int|
            0 <= k < flips.len() && s == cached_form(
                t.update(i, flips[k] as char),
                case_sensitive,
            ) {
            let k = choose|k: int|
                0 <= k < flips.len() && s == cached_form(
                    t.update(i, flips[k] as char),
                    case_sensitive,
                );
            assert(flips.contains(flips[k]));
            assert(valid_bitflip(valid, t[i] as u8, flips[k]));
        }
    }
}

/// The form in which a bitflipped string is cached.
pub open spec fn cached_form(s: Seq<char>, case_sensitive: bool) -> Seq<char> {
    if case_sensitive {
        s
    } else {
        lowercase(s)
    }
}

proof fn lemma_push_view_contains(old_cache: Seq<String>, new_cache: Seq<String>, s: String)
    requires
        new_cache == old_cache.push(s),
    ensures
        forall|x: Seq<char>|
            #![trigger string_views(new_cache).contains(x)]
            string_views(new_cache).contains(x) <==> (string_views(old_cache).contains(x) || x == s@),
{
    let nv = string_views(new_cache);
    let ov = string_views(old_cache);
    assert(nv =~= ov.push(s@));
    assert forall|x: Seq<char>| nv.contains(x) <==> (ov.contains(x) || x == s@) by {
        if nv.contains(x) {
            let i = choose|i: int| 0 <= i < nv.len() && nv[i] == x;
            if i < ov.len() {
                assert(ov[i] == x);
            }
        }
        if ov.contains(x) {
            let i = choose|i: int| 0 <= i < ov.len() && ov[i] == x;
            assert(nv[i] == x);
        }
        if x == s@ {
            assert(nv[ov.len() as int] == x);
        }
    }
}

/// Whether `v` contains `b`.
fn vec_contains_byte(v: &Vec<u8>, b: u8) -> (r: bool)
    ensures
        r == v@.contains(b),
{
    let n = v.len();
    for i in 0..n
        invariant
            n == v.len(),
            forall|j: int| 0 <= j < i ==> v@[j] != b,
    {
        if v[i] == b {
            return true;
        }
    }
    false
}

/// The bytes `from..to`, in increasing order.
pub(crate) fn byte_range(from: u8, to: u8) -> (r: Vec<u8>)
    requires
        from <= to,
    ensures
        r@ == Seq::new((to - from) as nat, |i: int| (from + i) as u8),
{
    let mut r: Vec<u8> = Vec::new();
    let mut b = from;
    while b < to
        invariant
            from <= b <= to,
            r@ == Seq::new((b - from) as nat, |i: int| (from + i) as u8),
        decreases to - b,
    {
        r.push(b);
        b = b + 1;
        assert(r@ =~= Seq::new((b - from) as nat, |i: int| (from + i) as u8));
    }
    r
}

/// The characters valid in DNS names: `a`-`z`, `A`-`Z`, `0`-`9`, `-` and `.`.
pub open spec fn dns_chars() -> Seq<u8> {
    Seq::new(26, |i: int| (0x61 + i) as u8) + Seq::new(26, |i: int| (0x41 + i) as u8) + Seq::new(
        10,
        |i: int| (0x30 + i) as u8,
    ) + seq![0x2du8, 0x2eu8]
}

/// The printable ASCII characters other than space: `!` (0x21) to `~` (0x7e).
pub open spec fn printable_chars() -> Seq<u8> {
    Seq::new(0x5e, |i: int| (0x21 + i) as u8)
}

/// The DNS characters, in the order of [`dns_chars`].
pub(crate) fn dns_char_list() -> (r: Vec<u8>)
    ensures
        r@ == dns_chars(),
{
    let mut v = byte_range(0x61, 0x7b);
    let mut upper = byte_range(0x41, 0x5b);
    let mut digits = byte_range(0x30, 0x3a);
    v.append(&mut upper);
    v.append(&mut digits);
    v.push(0x2d);
    v.push(0x2e);
    assert(v@ =~= dns_chars());
    v
}

/// metadata
#[derive(Clone, Copy)]
pub struct BitflipMetadata;

impl RuleMetadata for BitflipMetadata {
    open spec fn spec_rule_name() -> Seq<char> {
        "bitflip"@
    }

    fn rule_name() -> (r: &'static str) {
        "bitflip"
    }

    open spec fn spec_generic(&self) -> Map<Seq<char>, MetaValueView> {
        Map::empty()
    }

    fn to_generic(&self) -> (r: Metadata) {
        Metadata::new()
    }
}

impl MatcherRule for BitflipRule {
    type OutputMetadata = BitflipMetadata;
    type Error = std::io::Error;

    open spec fn accepts(&self, input_str: &str, target_str: &str) -> bool {
        true
    }

    fn check_accepts(&self, input_str: &str, target_str: &str) -> (r: bool) {
        true
    }

    fn match_rule(&self, input_str: &str, target_str: &str) -> (r: MatcherResult<
        BitflipMetadata,
        std::io::Error,
    >)
        ensures
            r is Ok,
            r->Ok_0.rule_type@ == "bitflip"@,
            r->Ok_0.matched == bitflip_cache(target_str@, self.valid(), self.is_case_sensitive()).contains(
                if self.is_case_sensitive() {
                    input_str@
                } else {
                    lowercase(input_str@)
                },
            ),
    {
        proof {
            use_type_invariant(self);
        }
        let lowered;
        let key = if self.case_sensitive {
            input_str
        } else {
            lowered = to_lowercase(input_str);
            lowered.as_str()
        };
        let matches = if str_eq(target_str, self.target.as_str()) {
            self.cache_contains(key)
        } else {
            let variants = Self::matches_for_target(
                target_str,
                &self.bitflips,
                Ghost(self.valid_chars@),
                self.case_sensitive,
            );
            strings_contain(&variants, key)
        };
        if matches {
            MatcherResult::new_match(BitflipMetadata)
        } else {
            MatcherResult::new_no_match(BitflipMetadata)
        }
    }
}

impl Clone for BitflipRule {
    fn clone(&self) -> (r: Self)
        ensures
            r.cache() == self.cache(),
            r.is_case_sensitive() == self.is_case_sensitive(),
            r.valid() == self.valid(),
            r.built_target() == self.built_target(),
    {
        proof {
            use_type_invariant(self);
        }
        BitflipRule {
            matches_cache: self.matches_cache.duplicate(),
            case_sensitive: self.case_sensitive,
            target: self.target.clone(),
            valid_chars: self.valid_chars.clone(),
            bitflips: Self::calculate_bitflips_for_chars(&self.valid_chars),
        }
    }
}

/// Whether `s` is one of `strings`.
fn strings_contain(strings: &Vec<String>, s: &str) -> (r: bool)
    ensures
        r == string_views(strings@).to_set().contains(s@),
{
    let n = strings.len();
    for i in 0..n
        invariant
            n == strings.len(),
            forall|j: int| 0 <= j < i ==> strings@[j]@ != s@,
    {
        if str_eq(strings[i].as_str(), s) {
            assert(string_views(strings@)[i as int] == s@);
            return true;
        }
    }
    assert(!string_views(strings@).contains(s@));
    false
}

impl BitflipRule {
    /// Whether `s` is one of the cached strings.
    fn cache_contains(&self, s: &str) -> (r: bool)
        ensures
            r == self.cache().contains(s@),
    {
        self.matches_cache.contains(s)
    }
}

} // verus!
