//! Preprocessors: steps that prepare input strings before the rules of a rule set run.
use vstd::prelude::*;

use crate::metadata::{MetaValue, MetaValueView, Metadata};
use crate::text::{
    all_ascii, chars_of, contains_char, contains_str, has_prefix, is_substring, remove_all,
    remove_occurrences, starts_with, str_eq, string_from_chars, string_views,
};

verus! {

/// Abstract value of an input string with the metadata gathered while preprocessing it.
pub type ItemView = (Seq<char>, Map<Seq<char>, MetaValueView>);

/// Abstract values of input strings with metadata.
pub open spec fn items_view(items: Seq<(String, Metadata)>) -> Seq<ItemView> {
    items.map_values(|item: (String, Metadata)| (item.0@, item.1@))
}

/// The pieces of `s` between dots, as `str::split('.')` yields them (empty pieces included).
pub open spec fn split_on_dots(s: Seq<char>) -> Seq<Seq<char>>
    decreases s.len(),
{
    if s.len() == 0 {
        seq![Seq::empty()]
    } else {
        let r = split_on_dots(s.drop_last());
        if s.last() == '.' {
            r.push(Seq::empty())
        } else {
            r.update(r.len() - 1, r.last().push(s.last()))
        }
    }
}

/// The non-empty pieces of `ps`, in order.
pub open spec fn non_empty(ps: Seq<Seq<char>>) -> Seq<Seq<char>>
    decreases ps.len(),
{
    if ps.len() == 0 {
        ps
    } else if ps.last().len() == 0 {
        non_empty(ps.drop_last())
    } else {
        non_empty(ps.drop_last()).push(ps.last())
    }
}

/// The non-empty pieces of `s` between dots.
pub open spec fn dot_parts(s: Seq<char>) -> Seq<Seq<char>> {
    non_empty(split_on_dots(s))
}

/// What the split target preprocessor makes of one input string: each non-empty piece between
/// dots (the last one left out when `ignore_tld` is set), with the piece and its position
/// added to the metadata.
pub open spec fn split_outputs(ignore_tld: bool, s: Seq<char>, md: Map<Seq<char>, MetaValueView>) -> Seq<
    ItemView,
> {
    let ps = dot_parts(s);
    let k = if ignore_tld && ps.len() > 0 {
        ps.len() - 1
    } else {
        ps.len() as int
    };
    Seq::new(
        k as nat,
        |i: int|
            (
                ps[i],
                md.insert("split_string"@, MetaValueView::Str(ps[i])).insert(
                    "split_position"@,
                    MetaValueView::UInt(i as u64),
                ),
            ),
    )
}

/// What the split target preprocessor makes of a list of input strings.
pub open spec fn split_all(ignore_tld: bool, items: Seq<ItemView>) -> Seq<ItemView>
    decreases items.len(),
{
    if items.len() == 0 {
        Seq::empty()
    } else {
        split_all(ignore_tld, items.drop_last()) + split_outputs(
            ignore_tld,
            items.last().0,
            items.last().1,
        )
    }
}

/// There is always at least one piece between dots.
proof fn lemma_split_on_dots_non_empty(s: Seq<char>)
    ensures
        split_on_dots(s).len() >= 1,
    decreases s.len(),
{
    if s.len() > 0 {
        lemma_split_on_dots_non_empty(s.drop_last());
    }
}

/// Adding a piece at the end adds it to the non-empty pieces when it is non-empty.
proof fn lemma_non_empty_push(ps: Seq<Seq<char>>, p: Seq<char>)
    ensures
        non_empty(ps.push(p)) == if p.len() == 0 {
            non_empty(ps)
        } else {
            non_empty(ps).push(p)
        },
{
    assert(ps.push(p).drop_last() =~= ps);
}

/// Configuration for the split target preprocessor
#[derive(Clone, Copy)]
pub struct SplitTargetConfig {
    /// If set to true, will ignore TLD part of the split string
    pub ignore_tld: bool,
}

impl Default for SplitTargetConfig {
    fn default() -> (r: Self)
        ensures
            !r.ignore_tld,
    {
        SplitTargetConfig { ignore_tld: false }
    }
}

/// The non-empty pieces of `s` between dots.
fn split_dot_parts(s: &str) -> (r: Vec<String>)
    ensures
        r@.map_values(|p: String| p@) == dot_parts(s@),
{
    let chars = chars_of(s);
    let n = chars.len();
    let mut parts: Vec<String> = Vec::new();
    let mut cur: Vec<char> = Vec::new();
    for i in 0..n
        invariant
            n == chars.len(),
            chars@ == s@,
            split_on_dots(s@.take(i as int)).len() >= 1,
            parts@.map_values(|p: String| p@) == non_empty(
                split_on_dots(s@.take(i as int)).drop_last(),
            ),
            cur@ == split_on_dots(s@.take(i as int)).last(),
    {
        let ghost prev = split_on_dots(s@.take(i as int));
        proof {
            lemma_split_on_dots_non_empty(s@.take(i as int));
            assert(s@.take(i + 1).drop_last() =~= s@.take(i as int));
            assert(s@.take(i + 1).last() == chars@[i as int]);
        }
        let c = chars[i];
        if c == '.' {
            proof {
                assert(prev.push(Seq::empty()).drop_last() =~= prev);
                assert(prev =~= prev.drop_last().push(prev.last()));
                lemma_non_empty_push(prev.drop_last(), prev.last());
            }
            if cur.len() > 0 {
                let ghost old_parts = parts@;
                parts.push(string_from_chars(&cur));
                assert(parts@.map_values(|p: String| p@) =~= old_parts.map_values(|p: String| p@).push(cur@));
            }
            cur = Vec::new();
        } else {
            proof {
                let next = prev.update(prev.len() - 1, prev.last().push(c));
                assert(next.drop_last() =~= prev.drop_last());
            }
            cur.push(c);
        }
    }
    proof {
        lemma_split_on_dots_non_empty(s@);
        assert(s@.take(n as int) =~= s@);
        let all = split_on_dots(s@);
        assert(all =~= all.drop_last().push(all.last()));
        lemma_non_empty_push(all.drop_last(), all.last());
    }
    if cur.len() > 0 {
        let ghost old_parts = parts@;
        parts.push(string_from_chars(&cur));
        assert(parts@.map_values(|p: String| p@) =~= old_parts.map_values(|p: String| p@).push(cur@));
    }
    parts
}

impl SplitTargetConfig {
    /// Splits each input string on '.', keeping the non-empty pieces (all but the last when
    /// `ignore_tld` is set), each with its piece and position added to the metadata.
    pub fn process(&self, input: Vec<(String, Metadata)>) -> (r: Vec<(String, Metadata)>)
        ensures
            items_view(r@) == split_all(self.ignore_tld, items_view(input@)),
    {
        let mut out: Vec<(String, Metadata)> = Vec::new();
        let n = input.len();
        for i in 0..n
            invariant
                n == input.len(),
                items_view(out@) == split_all(self.ignore_tld, items_view(input@).take(i as int)),
        {
            proof {
                let taken = items_view(input@).take(i + 1);
                assert(taken.drop_last() =~= items_view(input@).take(i as int));
                assert(taken.last() == (input@[i as int].0@, input@[i as int].1@));
            }
            let item = &input[i];
            let parts = split_dot_parts(item.0.as_str());
            let ghost ps = dot_parts(item.0@);
            let count = if self.ignore_tld && parts.len() > 0 {
                parts.len() - 1
            } else {
                parts.len()
            };
            let ghost base = out@;
            for k in 0..count
                invariant
                    count <= parts.len(),
                    parts@.map_values(|p: String| p@) == ps,
                    ps == dot_parts(item.0@),
                    count == (if self.ignore_tld && ps.len() > 0 {
                        ps.len() - 1
                    } else {
                        ps.len() as int
                    }),
                    out@.len() == base.len() + k,
                    out@.take(base.len() as int) == base,
                    forall|j: int|
                        0 <= j < k ==> (#[trigger] out@[base.len() + j]).0@ == split_outputs(
                            self.ignore_tld,
                            item.0@,
                            item.1@,
                        )[j].0 && out@[base.len() + j].1@ == split_outputs(
                            self.ignore_tld,
                            item.0@,
                            item.1@,
                        )[j].1,
            {
                let part = &parts[k];
                assert(part@ == ps[k as int]);
                let mut md = item.1.duplicate();
                md.insert(String::from_str("split_string"), MetaValue::Str(part.clone()));
                md.insert(String::from_str("split_position"), MetaValue::UInt(k as u64));
                let ghost before = out@;
                out.push((part.clone(), md));
                assert(out@.take(base.len() as int) =~= before.take(base.len() as int));
            }
            proof {
                let added = split_outputs(self.ignore_tld, item.0@, item.1@);
                assert(added.len() == count);
                assert forall|j: int| 0 <= j < out@.len() implies #[trigger] items_view(out@)[j] == (
                items_view(base) + added)[j] by {
                    if j < base.len() {
                        assert(out@.take(base.len() as int)[j] == out@[j]);
                    } else {
                        assert(out@[base.len() + (j - base.len())] == out@[j]);
                    }
                }
                assert(items_view(out@) =~= items_view(base) + added);
            }
        }
        proof {
            assert(items_view(input@).take(n as int) =~= items_view(input@));
        }
        out
    }
}

/// The ASCII form of a domain name, as `idna::domain_to_ascii` computes it (`None` when it
/// fails).
pub uninterp spec fn idna_domain_to_ascii(domain: Seq<char>) -> Option<Seq<char>>;

/// The Punycode encoding of a label, as `idna::punycode::encode_str` computes it (`None` when
/// it fails).
pub uninterp spec fn punycode_encoding(label: Seq<char>) -> Option<Seq<char>>;

/// The Unicode form of a domain name, and whether the conversion succeeded, as
/// `idna::domain_to_unicode` computes them.
pub uninterp spec fn idna_domain_to_unicode(domain: Seq<char>) -> (Seq<char>, bool);

/// The label that a Punycode encoding decodes to, as `idna::punycode::decode_to_string`
/// computes it (`None` when the encoding is invalid).
pub uninterp spec fn punycode_decoding(encoded: Seq<char>) -> Option<Seq<char>>;

/// The abstract value of an optional string.
pub open spec fn opt_view(o: Option<String>) -> Option<Seq<char>> {
    match o {
        Some(s) => Some(s@),
        None => None,
    }
}

/// `idna::domain_to_ascii`.
///
/// Trusted: the result depends on `domain` alone and is named [`idna_domain_to_ascii`]; an
/// error of the crate becomes `None`.
#[verifier::external_body]
fn domain_to_ascii(domain: &str) -> (r: Option<String>)
    ensures
        opt_view(r) == idna_domain_to_ascii(domain@),
{
    idna::domain_to_ascii(domain).ok()
}

/// `idna::punycode::encode_str`.
///
/// Trusted: the result depends on `label` alone and is named [`punycode_encoding`].
#[verifier::external_body]
fn punycode_encode_str(label: &str) -> (r: Option<String>)
    ensures
        opt_view(r) == punycode_encoding(label@),
{
    idna::punycode::encode_str(label)
}

/// `idna::domain_to_unicode`.
///
/// Trusted: the resulting string and whether the conversion succeeded depend on `domain` alone
/// and are named [`idna_domain_to_unicode`]; the crate's error value becomes `false`.
#[verifier::external_body]
fn domain_to_unicode(domain: &str) -> (r: (String, bool))
    ensures
        (r.0@, r.1) == idna_domain_to_unicode(domain@),
{
    let (decoded, result) = idna::domain_to_unicode(domain);
    (decoded, result.is_ok())
}

/// `idna::punycode::decode_to_string`.
///
/// Trusted: the result depends on `encoded` alone and is named [`punycode_decoding`].
#[verifier::external_body]
fn punycode_decode_to_string(encoded: &str) -> (r: Option<String>)
    ensures
        opt_view(r) == punycode_decoding(encoded@),
{
    idna::punycode::decode_to_string(encoded)
}

/// Configuration for the punycode preprocessor
#[derive(Clone, Copy)]
pub struct PunycodeConfig {
    /// If set to true, this preprocessor will encode non-punycode strings to punycode
    pub encode: bool,
    /// If set to true, this preprocessor will decode punycode strings
    pub decode: bool,
    /// If set to true, this preprocessor will keep both the original and the encoded/decoded
    /// result
    pub keep_both: bool,
}

impl Default for PunycodeConfig {
    fn default() -> (r: Self)
        ensures
            !r.encode && !r.decode && !r.keep_both,
    {
        PunycodeConfig { encode: false, decode: false, keep_both: false }
    }
}

/// Metadata holding only the `punycode` flag.
pub open spec fn punycode_flag(b: bool) -> Map<Seq<char>, MetaValueView> {
    Map::empty().insert("punycode"@, MetaValueView::Bool(b))
}

/// Whether an ASCII string is already in Punycode form: a domain name with an `xn--` label,
/// or a label that starts with `xn--`.
pub open spec fn marked_as_punycode(s: Seq<char>) -> bool {
    if s.contains('.') {
        is_substring("xn--"@, s)
    } else {
        has_prefix(s, "xn--"@)
    }
}

/// The encoding of a non-ASCII string: the ASCII form of a domain name, or `xn--` and the
/// Punycode encoding of a label.
pub open spec fn encoded_form(s: Seq<char>) -> Option<Seq<char>> {
    if s.contains('.') {
        idna_domain_to_ascii(s)
    } else {
        match punycode_encoding(s) {
            Some(e) => Some("xn--"@ + e),
            None => None,
        }
    }
}

/// The decoding of a string in Punycode form, or `None` when it fails.
pub open spec fn decoded_form(s: Seq<char>) -> Option<Seq<char>> {
    if s.contains('.') {
        let (d, ok) = idna_domain_to_unicode(s);
        if ok {
            Some(d)
        } else {
            None
        }
    } else {
        punycode_decoding(remove_occurrences(s, "xn--"@))
    }
}

/// What the punycode preprocessor makes of one input string: the encoded form (flagged as
/// Punycode), then the decoded form (flagged as not Punycode), then the original string with
/// its flag, kept when asked to or when an encoding or decoding failed.
pub open spec fn punycode_outputs(
    cfg: PunycodeConfig,
    s: Seq<char>,
    md: Map<Seq<char>, MetaValueView>,
) -> Seq<ItemView> {
    let encodes = cfg.encode && !all_ascii(s);
    let encoded = encoded_form(s);
    let md1 = if !cfg.encode {
        md
    } else if all_ascii(s) {
        md.insert("punycode"@, MetaValueView::Bool(marked_as_punycode(s)))
    } else {
        md.insert("punycode"@, MetaValueView::Bool(false))
    };
    let encoded_items: Seq<ItemView> = if encodes && encoded is Some {
        seq![(encoded->Some_0, punycode_flag(true))]
    } else {
        Seq::empty()
    };
    let decodes = cfg.decode && marked_as_punycode(s);
    let decoded = decoded_form(s);
    let md2 = if decodes {
        md1.insert("punycode"@, MetaValueView::Bool(true))
    } else {
        md1
    };
    let decoded_items: Seq<ItemView> = if decodes && decoded is Some {
        seq![(decoded->Some_0, punycode_flag(false))]
    } else {
        Seq::empty()
    };
    let keep = cfg.keep_both || (encodes && encoded is None) || (decodes && decoded is None);
    encoded_items + decoded_items + if keep {
        seq![(s, md2)]
    } else {
        Seq::<ItemView>::empty()
    }
}

/// What the punycode preprocessor makes of a list of input strings.
pub open spec fn punycode_all(cfg: PunycodeConfig, items: Seq<ItemView>) -> Seq<ItemView>
    decreases items.len(),
{
    if items.len() == 0 {
        Seq::empty()
    } else {
        punycode_all(cfg, items.drop_last()) + punycode_outputs(
            cfg,
            items.last().0,
            items.last().1,
        )
    }
}

/// Metadata holding only the `punycode` flag.
fn punycode_flag_metadata(b: bool) -> (r: Metadata)
    ensures
        r@ == punycode_flag(b),
{
    let mut m = Metadata::new();
    m.insert(String::from_str("punycode"), MetaValue::Bool(b));
    m
}

impl PunycodeConfig {
    /// What this preprocessor makes of one input string.
    fn process_one(&self, s: &String, md: &Metadata) -> (r: Vec<(String, Metadata)>)
        ensures
            items_view(r@) == punycode_outputs(*self, s@, md@),
    {
        let mut result: Vec<(String, Metadata)> = Vec::new();
        let mut add_original = self.keep_both;
        let mut original_metadata = md.duplicate();
        let has_dot = contains_char(s.as_str(), '.');
        if self.encode {
            let is_ascii = s.as_str().is_ascii();
            if is_ascii {
                let marked = if has_dot {
                    contains_str(s.as_str(), "xn--")
                } else {
                    starts_with(s.as_str(), "xn--")
                };
                original_metadata.insert(String::from_str("punycode"), MetaValue::Bool(marked));
            } else {
                let encoded = if has_dot {
                    domain_to_ascii(s.as_str())
                } else {
                    match punycode_encode_str(s.as_str()) {
                        Some(e) => {
                            let mut prefixed = String::from_str("xn--");
                            prefixed.append(e.as_str());
                            Some(prefixed)
                        },
                        None => None,
                    }
                };
                original_metadata.insert(String::from_str("punycode"), MetaValue::Bool(false));
                match encoded {
                    Some(e) => {
                        result.push((e, punycode_flag_metadata(true)));
                    },
                    None => {
                        add_original = true;
                    },
                }
            }
        }
        if self.decode {
            let decoded = if has_dot && contains_str(s.as_str(), "xn--") {
                let (d, ok) = domain_to_unicode(s.as_str());
                if ok {
                    Some(Some(d))
                } else {
                    Some(None)
                }
            } else if !has_dot && starts_with(s.as_str(), "xn--") {
                proof {
                    reveal_strlit("xn--");
                }
                let stripped = remove_all(s.as_str(), "xn--");
                Some(punycode_decode_to_string(stripped.as_str()))
            } else {
                None
            };
            match decoded {
                Some(outcome) => {
                    original_metadata.insert(String::from_str("punycode"), MetaValue::Bool(true));
                    match outcome {
                        Some(d) => {
                            result.push((d, punycode_flag_metadata(false)));
                        },
                        None => {
                            add_original = true;
                        },
                    }
                },
                None => {},
            }
        }
        if add_original {
            result.push((s.clone(), original_metadata));
        }
        proof {
            assert(items_view(result@) =~= punycode_outputs(*self, s@, md@));
        }
        result
    }

    /// Encodes non-ASCII strings to Punycode and decodes Punycode strings, as configured.
    pub fn process(&self, input: Vec<(String, Metadata)>) -> (r: Vec<(String, Metadata)>)
        ensures
            items_view(r@) == punycode_all(*self, items_view(input@)),
    {
        let mut out: Vec<(String, Metadata)> = Vec::new();
        let n = input.len();
        for i in 0..n
            invariant
                n == input.len(),
                items_view(out@) == punycode_all(*self, items_view(input@).take(i as int)),
        {
            proof {
                let taken = items_view(input@).take(i + 1);
                assert(taken.drop_last() =~= items_view(input@).take(i as int));
                assert(taken.last() == (input@[i as int].0@, input@[i as int].1@));
            }
            let item = &input[i];
            let mut produced = self.process_one(&item.0, &item.1);
            let ghost before = out@;
            out.append(&mut produced);
            proof {
                assert(items_view(out@) =~= items_view(before) + punycode_outputs(
                    *self,
                    item.0@,
                    item.1@,
                ));
            }
        }
        proof {
            assert(items_view(input@).take(n as int) =~= items_view(input@));
        }
        out
    }
}

/// A set of strings, held in a `hashbrown::HashSet`.
#[verifier::external_body]
pub struct StringSet {
    set: hashbrown::HashSet<String>,
}

/// The strings held by a [`StringSet`].
pub uninterp spec fn string_set_contents(set: StringSet) -> Set<Seq<char>>;

impl StringSet {
    /// `hashbrown::HashSet::from_iter` over copies of `items`.
    ///
    /// Trusted: the set holds exactly the strings of `items`.
    #[verifier::external_body]
    pub(crate) fn from_strings(items: &Vec<String>) -> (r: StringSet)
        ensures
            string_set_contents(r) == string_views(items@).to_set(),
    {
        StringSet { set: hashbrown::HashSet::from_iter(items.iter().cloned()) }
    }

    /// `hashbrown::HashSet::contains`.
    ///
    /// Trusted: the answer is whether `s` is one of the strings of the set.
    #[verifier::external_body]
    pub(crate) fn contains(&self, s: &str) -> (r: bool)
        ensures
            r == string_set_contents(*self).contains(s@),
    {
        self.set.contains(s)
    }
}

/// The hash of a string, as `BuildHasher::hash_one` computes it with the default builder of
/// `std::hash::DefaultHasher`.
pub uninterp spec fn line_hash_of(s: Seq<char>) -> u64;

/// `BuildHasher::hash_one` of `BuildHasherDefault<DefaultHasher>` on `s`.
///
/// Trusted: the hash depends on `s` alone and is named [`line_hash_of`]. std documents that
/// every `DefaultHasher` made by `new` or `default` is the same hasher (it is not seeded per
/// process). Nothing is stated of which strings share a hash.
#[verifier::external_body]
fn line_hash(s: &str) -> (r: u64)
    ensures
        r == line_hash_of(s@),
{
    std::hash::BuildHasher::hash_one(
        &std::hash::BuildHasherDefault::<std::hash::DefaultHasher>::default(),
        s,
    )
}

/// A probabilistic filter over lines of text: `xorf::HashProxy` over an `xorf::Xor32` filter,
/// with lines hashed by `std::hash::DefaultHasher`.
#[verifier::external_body]
pub struct LineFilter {
    filter: xorf::HashProxy<String, std::hash::DefaultHasher, xorf::Xor32>,
}

/// The hashes of the lines a [`LineFilter`] was built from.
pub uninterp spec fn line_filter_hashes(filter: LineFilter) -> Set<u64>;

impl LineFilter {
    /// `xorf::HashProxy::from` over `lines`.
    ///
    /// Trusted: the proxy hashes each line with a default `DefaultHasher` (the hash
    /// [`line_hash_of`] names) and builds the `Xor32` filter from those hashes. That
    /// construction retries with new seeds until it succeeds, which it never does when a hash
    /// occurs twice; the `requires` asks for distinct hashes.
    #[verifier::external_body]
    pub(crate) fn from_lines(lines: &Vec<String>) -> (r: LineFilter)
        requires
            line_hashes(string_views(lines@)).no_duplicates(),
        ensures
            line_filter_hashes(r) == line_hashes(string_views(lines@)).to_set(),
    {
        LineFilter { filter: xorf::HashProxy::from(lines) }
    }

    /// `xorf::Filter::contains` of the proxy.
    ///
    /// Trusted: the proxy hashes `s` as [`line_hash_of`] does and asks the filter, which has no
    /// false negatives, so every string whose hash the filter was built from is reported;
    /// other strings may be reported too, which is left open.
    #[verifier::external_body]
    pub(crate) fn may_contain(&self, s: &str) -> (r: bool)
        ensures
            line_filter_hashes(*self).contains(line_hash_of(s@)) ==> r,
    {
        xorf::Filter::contains(&self.filter, &s.to_string())
    }
}

/// The hashes of `lines`.
pub open spec fn line_hashes(lines: Seq<Seq<char>>) -> Seq<u64> {
    lines.map_values(|l: Seq<char>| line_hash_of(l))
}

/// The lines of an exclusion file, loaded into memory, with a filter over their hashes that
/// answers most lookups of strings that are not lines without scanning them.
pub struct LoadedLines {
    filter: LineFilter,
    lines: Vec<String>,
}

impl LoadedLines {
    /// The filter was built from the hashes of the lines.
    #[verifier::type_invariant]
    spec fn filter_matches_lines(self) -> bool {
        line_filter_hashes(self.filter) == line_hashes(string_views(self.lines@)).to_set()
    }

    /// The loaded lines.
    pub closed spec fn line_set(&self) -> Set<Seq<char>> {
        string_views(self.lines@).to_set()
    }

    /// Loads the lines of an exclusion file. The filter is built from one line of each hash, so
    /// that a line that occurs more than once, or a hash that several lines share, reaches it
    /// once.
    pub fn new(lines: Vec<String>) -> (r: LoadedLines)
        ensures
            r.line_set() == string_views(lines@).to_set(),
    {
        let n = lines.len();
        let mut seen: std::collections::HashSet<u64> = std::collections::HashSet::new();
        let mut keys: Vec<u64> = Vec::new();
        let mut filter_lines: Vec<String> = Vec::new();
        let ghost views = string_views(lines@);
        for i in 0..n
            invariant
                n == lines.len(),
                views == string_views(lines@),
                keys@.no_duplicates(),
                seen@ == keys@.to_set(),
                keys@.to_set() == line_hashes(views.take(i as int)).to_set(),
                line_hashes(string_views(filter_lines@)) == keys@,
        {
            broadcast use vstd::std_specs::hash::group_hash_axioms;
            let h = line_hash(lines[i].as_str());
            let ghost before = keys@;
            let ghost before_lines = filter_lines@;
            proof {
                assert(line_hashes(views.take(i + 1)) =~= line_hashes(views.take(i as int)).push(h));
                assert(views.take(i + 1) =~= views.take(i as int).push(views[i as int]));
                line_hashes(views.take(i as int)).lemma_push_to_set_commute(h);
                before.lemma_push_to_set_commute(h);
            }
            if seen.insert(h) {
                keys.push(h);
                filter_lines.push(lines[i].clone());
                proof {
                    assert(string_views(filter_lines@) =~= string_views(before_lines).push(
                        lines@[i as int]@,
                    ));
                    assert(line_hashes(string_views(filter_lines@)) =~= keys@);
                }
            }
            proof {
                assert(keys@.to_set() =~= line_hashes(views.take(i + 1)).to_set());
            }
        }
        proof {
            assert(views.take(n as int) =~= views);
        }
        let filter = LineFilter::from_lines(&filter_lines);
        LoadedLines { filter, lines }
    }

    /// Whether `s` is one of the lines: the filter is asked first, and the lines are scanned
    /// only when it reports `s`.
    pub fn contains(&self, s: &str) -> (r: bool)
        ensures
            r == self.line_set().contains(s@),
    {
        proof {
            use_type_invariant(self);
        }
        if !self.filter.may_contain(s) {
            proof {
                if string_views(self.lines@).contains(s@) {
                    let k = choose|k: int| 0 <= k < self.lines@.len() && string_views(self.lines@)[k] == s@;
                    assert(line_hashes(string_views(self.lines@))[k] == line_hash_of(s@));
                    assert(line_hashes(string_views(self.lines@)).to_set().contains(line_hash_of(s@)));
                }
            }
            return false;
        }
        let n = self.lines.len();
        for i in 0..n
            invariant
                n == self.lines.len(),
                forall|j: int| 0 <= j < i ==> self.lines@[j]@ != s@,
        {
            if str_eq(self.lines[i].as_str(), s) {
                assert(string_views(self.lines@)[i as int] == s@);
                return true;
            }
        }
        assert(!string_views(self.lines@).contains(s@));
        false
    }
}


/// Configuration for the exclusion set preprocessor source
#[derive(Clone)]
pub enum ExclusionSetSource {
    /// Path to a file containing exclusion set, one string per line
    File(String),
    /// Static list of strings to put in the exclusion set
    Static(Vec<String>),
}

impl Default for ExclusionSetSource {
    fn default() -> (r: Self)
        ensures
            r matches ExclusionSetSource::Static(v) && v@.len() == 0,
    {
        ExclusionSetSource::Static(Vec::new())
    }
}

/// Configuration for the exclusion set preprocessor
#[derive(Clone)]
pub struct ExclusionSetConfig {
    /// Source to take exclusion set from
    pub source: ExclusionSetSource,
    /// If set to true, all entries will be considered as regex patterns
    pub regex: bool,
}

impl Default for ExclusionSetConfig {
    fn default() -> (r: Self)
        ensures
            r.source matches ExclusionSetSource::Static(v) && v@.len() == 0,
            !r.regex,
    {
        ExclusionSetConfig { source: ExclusionSetSource::default(), regex: false }
    }
}

/// Context for a specific exclusion set type
pub enum ExclusionSetContext {
    /// Context for static exact match exclusion sets
    ExactStaticSet(StringSet),
    /// Context for file sourced exact match exclusion sets
    ExactFileSet {
        /// The path to the file
        path: String,
        /// The lines of the file, once loaded
        filter: Option<LoadedLines>,
    },
    /// Context for regex exclusion sets (both file and static)
    RegexSet {
        /// The patterns of the compiled pattern database, once there is one; matching against
        /// the database is done outside this library, which is handed the outcome for each
        /// string
        db: Option<Vec<String>>,
    },
}

/// Context of a preprocessor (external state)
pub enum PreprocessorContext {
    /// Empty context for preprocessors that don't need it
    Empty,
    /// Context for exclusion set preprocessor
    ExclusionSet {
        /// Specific context for this exclusion set
        context: ExclusionSetContext,
    },
}

impl PreprocessorContext {
    /// Whether this context holds a compiled regex database, so that processing needs the
    /// outcome of matching each string against it.
    pub open spec fn spec_needs_regex_scan(&self) -> bool {
        self matches PreprocessorContext::ExclusionSet {
            context: ExclusionSetContext::RegexSet { db: Some(_) },
        }
    }

    /// Whether this context holds a compiled regex database.
    pub fn needs_regex_scan(&self) -> (r: bool)
        ensures
            r == self.spec_needs_regex_scan(),
    {
        match self {
            PreprocessorContext::ExclusionSet {
                context: ExclusionSetContext::RegexSet { db: Some(_) },
            } => true,
            _ => false,
        }
    }

    /// Loads the lines of the file of an exact-match file exclusion set; other contexts are
    /// left unchanged.
    pub fn load_lines(&mut self, lines: Vec<String>)
        ensures
            *old(self) matches PreprocessorContext::ExclusionSet {
                context: ExclusionSetContext::ExactFileSet { path: old_path, .. },
            } ==> (*final(self) matches PreprocessorContext::ExclusionSet {
                context: ExclusionSetContext::ExactFileSet { path, filter: Some(loaded) },
            } && path@ == old_path@ && loaded.line_set() == string_views(lines@).to_set()),
            !(*old(self) matches PreprocessorContext::ExclusionSet {
                context: ExclusionSetContext::ExactFileSet { .. },
            }) ==> *final(self) == *old(self),
    {
        if let PreprocessorContext::ExclusionSet {
            context: ExclusionSetContext::ExactFileSet { path, filter },
        } = self {
            *filter = Some(LoadedLines::new(lines));
        }
    }

    /// Sets the patterns of the compiled database of a regex exclusion set; other contexts are
    /// left unchanged.
    pub fn set_regex_db(&mut self, patterns: Vec<String>)
        ensures
            (*old(self) matches PreprocessorContext::ExclusionSet {
                context: ExclusionSetContext::RegexSet { .. },
            }) ==> (*final(self) matches PreprocessorContext::ExclusionSet {
                context: ExclusionSetContext::RegexSet { db: Some(p) },
            } && p@ == patterns@),
            !(*old(self) matches PreprocessorContext::ExclusionSet {
                context: ExclusionSetContext::RegexSet { .. },
            }) ==> *final(self) == *old(self),
    {
        if let PreprocessorContext::ExclusionSet {
            context: ExclusionSetContext::RegexSet { db },
        } = self {
            *db = Some(patterns);
        }
    }
}

/// Whether the exclusion set keeps the string `s`. `scan_hit` is the outcome of matching `s`
/// against the compiled regex database, for a regex set that has one.
pub open spec fn exclusion_keeps(
    config: ExclusionSetConfig,
    context: PreprocessorContext,
    s: Seq<char>,
    scan_hit: bool,
) -> bool {
    match context {
        PreprocessorContext::ExclusionSet { context: c } => {
            if config.regex {
                match c {
                    ExclusionSetContext::RegexSet { db: Some(_) } => !scan_hit,
                    _ => true,
                }
            } else {
                match config.source {
                    ExclusionSetSource::File(_) => match c {
                        ExclusionSetContext::ExactFileSet { filter: Some(loaded), .. } => !loaded.line_set().contains(s),
                        _ => true,
                    },
                    ExclusionSetSource::Static(_) => match c {
                        ExclusionSetContext::ExactStaticSet(set) => !string_set_contents(set).contains(s),
                        _ => true,
                    },
                }
            }
        },
        PreprocessorContext::Empty => true,
    }
}

/// The items whose flag in `keep` is set, in order.
pub open spec fn kept(items: Seq<ItemView>, keep: Seq<bool>) -> Seq<ItemView>
    decreases items.len(),
{
    if items.len() == 0 {
        items
    } else if keep[items.len() - 1] {
        kept(items.drop_last(), keep).push(items.last())
    } else {
        kept(items.drop_last(), keep)
    }
}

/// The scan outcome for item `i`, or `false` where none was given.
pub open spec fn scan_hit_at(scan_hits: Seq<bool>, i: int) -> bool {
    0 <= i < scan_hits.len() && scan_hits[i]
}

/// What an exclusion set makes of a list of input strings.
pub open spec fn exclusion_all(
    config: ExclusionSetConfig,
    context: PreprocessorContext,
    items: Seq<ItemView>,
    scan_hits: Seq<bool>,
) -> Seq<ItemView> {
    kept(
        items,
        Seq::new(
            items.len(),
            |i: int| exclusion_keeps(config, context, items[i].0, scan_hit_at(scan_hits, i)),
        ),
    )
}

/// `kept` over a prefix depends only on the flags of that prefix.
proof fn lemma_kept_prefix(items: Seq<ItemView>, keep1: Seq<bool>, keep2: Seq<bool>)
    requires
        forall|j: int| 0 <= j < items.len() ==> keep1[j] == keep2[j],
    ensures
        kept(items, keep1) == kept(items, keep2),
    decreases items.len(),
{
    if items.len() > 0 {
        lemma_kept_prefix(items.drop_last(), keep1, keep2);
    }
}

impl ExclusionSetConfig {
    /// Whether the set keeps the string `s`.
    fn keeps(&self, context: &PreprocessorContext, s: &str, scan_hit: bool) -> (r: bool)
        ensures
            r == exclusion_keeps(*self, *context, s@, scan_hit),
    {
        match context {
            PreprocessorContext::ExclusionSet { context: c } => {
                if self.regex {
                    match c {
                        ExclusionSetContext::RegexSet { db: Some(_) } => !scan_hit,
                        _ => true,
                    }
                } else {
                    match &self.source {
                        ExclusionSetSource::File(_) => match c {
                            ExclusionSetContext::ExactFileSet { filter: Some(loaded), .. } => !loaded.contains(s),
                            _ => true,
                        },
                        ExclusionSetSource::Static(_) => match c {
                            ExclusionSetContext::ExactStaticSet(set) => !set.contains(s),
                            _ => true,
                        },
                    }
                }
            },
            PreprocessorContext::Empty => true,
        }
    }

    /// Drops the input strings that belong to the exclusion set. For a regex set with a
    /// compiled database, `scan_hits[i]` tells whether the `i`-th string matched it.
    pub fn process(
        &self,
        input: Vec<(String, Metadata)>,
        context: &PreprocessorContext,
        scan_hits: &Vec<bool>,
    ) -> (r: Vec<(String, Metadata)>)
        ensures
            items_view(r@) == exclusion_all(*self, *context, items_view(input@), scan_hits@),
    {
        let ghost items = items_view(input@);
        let ghost flags = Seq::new(
            items.len(),
            |i: int| exclusion_keeps(*self, *context, items[i].0, scan_hit_at(scan_hits@, i)),
        );
        let mut out: Vec<(String, Metadata)> = Vec::new();
        let n = input.len();
        for i in 0..n
            invariant
                n == input.len(),
                items == items_view(input@),
                flags.len() == n,
                forall|j: int|
                    0 <= j < n ==> #[trigger] flags[j] == exclusion_keeps(
                        *self,
                        *context,
                        items[j].0,
                        scan_hit_at(scan_hits@, j),
                    ),
                items_view(out@) == kept(items.take(i as int), flags),
        {
            proof {
                let taken = items.take(i + 1);
                assert(taken.drop_last() =~= items.take(i as int));
                assert(taken.last() == items[i as int]);
            }
            let hit = i < scan_hits.len() && scan_hits[i];
            let keep = self.keeps(context, input[i].0.as_str(), hit);
            assert(keep == flags[i as int]);
            if keep {
                let item = (input[i].0.clone(), input[i].1.duplicate());
                let ghost before = out@;
                out.push(item);
                assert(items_view(out@) =~= items_view(before).push(items[i as int]));
            }
        }
        proof {
            assert(items.take(n as int) =~= items);
        }
        out
    }
}

/// Preprocessor - prepares data before executing rules
#[derive(Clone)]
pub enum Preprocessor {
    /// Split target preprocessor
    ///
    /// Splits input string on '.' character and optionally ignores last part.
    /// Useful for domain names.
    SplitTarget(SplitTargetConfig),
    /// Exclusion set preprocessor
    ///
    /// Excludes known strings from being processed by the rules in the ruleset.
    ExclusionSet(ExclusionSetConfig),
    /// Punycode preprocessor
    ///
    /// Encodes/decodes punycode.
    /// Useful for domain names.
    Punycode(PunycodeConfig),
}

/// What a preprocessor makes of a list of input strings, given its context and, for a regex
/// exclusion set with a compiled database, the outcome of matching each string against it.
pub open spec fn preprocess_spec(
    p: Preprocessor,
    context: PreprocessorContext,
    items: Seq<ItemView>,
    scan_hits: Seq<bool>,
) -> Seq<ItemView> {
    match p {
        Preprocessor::SplitTarget(c) => split_all(c.ignore_tld, items),
        Preprocessor::ExclusionSet(c) => exclusion_all(c, context, items, scan_hits),
        Preprocessor::Punycode(c) => punycode_all(c, items),
    }
}

/// Whether `c` is the context that [`Preprocessor::build_context`] builds for `p`: an exclusion
/// set from a file gets an empty slot for its lines (or for its compiled patterns), one from a
/// static list gets the list as a set of exact strings (or as its patterns); other
/// preprocessors get the empty context.
pub open spec fn context_built_for(p: Preprocessor, c: PreprocessorContext) -> bool {
    match p {
        Preprocessor::ExclusionSet(config) => match config.source {
            ExclusionSetSource::File(path) => if config.regex {
                c == PreprocessorContext::ExclusionSet {
                    context: ExclusionSetContext::RegexSet { db: None },
                }
            } else {
                c == PreprocessorContext::ExclusionSet {
                    context: ExclusionSetContext::ExactFileSet { path, filter: None },
                }
            },
            ExclusionSetSource::Static(items) => if config.regex {
                c matches PreprocessorContext::ExclusionSet {
                    context: ExclusionSetContext::RegexSet { db: Some(patterns) },
                } && patterns@ == items@
            } else {
                c matches PreprocessorContext::ExclusionSet {
                    context: ExclusionSetContext::ExactStaticSet(set),
                } && string_set_contents(set) == string_views(items@).to_set()
            },
        },
        _ => c == PreprocessorContext::Empty,
    }
}

impl Preprocessor {
    /// Processes a list of input strings producing another list with modified data. For a
    /// regex exclusion set with a compiled database, `scan_hits[i]` tells whether the `i`-th
    /// string matched it.
    pub fn process(
        &self,
        input: Vec<(String, Metadata)>,
        context: &PreprocessorContext,
        scan_hits: &Vec<bool>,
    ) -> (r: Vec<(String, Metadata)>)
        ensures
            items_view(r@) == preprocess_spec(*self, *context, items_view(input@), scan_hits@),
    {
        match self {
            Preprocessor::SplitTarget(config) => config.process(input),
            Preprocessor::ExclusionSet(config) => config.process(input, context, scan_hits),
            Preprocessor::Punycode(config) => config.process(input),
        }
    }

    /// Builds context for this preprocessor: none for the split target and punycode
    /// preprocessors; for an exclusion set, the set itself when it is a static list of exact
    /// strings, its patterns when it is a static list of patterns, and nothing loaded yet when
    /// it comes from a file.
    pub fn build_context(&self) -> (r: PreprocessorContext)
        ensures
            context_built_for(*self, r),
    {
        match self {
            Preprocessor::ExclusionSet(config) => {
                let context = match &config.source {
                    ExclusionSetSource::File(path) => {
                        if config.regex {
                            ExclusionSetContext::RegexSet { db: None }
                        } else {
                            ExclusionSetContext::ExactFileSet { path: path.clone(), filter: None }
                        }
                    },
                    ExclusionSetSource::Static(items) => {
                        if config.regex {
                            ExclusionSetContext::RegexSet { db: Some(items.clone()) }
                        } else {
                            ExclusionSetContext::ExactStaticSet(StringSet::from_strings(items))
                        }
                    },
                };
                PreprocessorContext::ExclusionSet { context }
            },
            _ => PreprocessorContext::Empty,
        }
    }
}

/// No piece between dots holds a dot.
proof fn lemma_split_pieces_dot_free(s: Seq<char>)
    ensures
        forall|i: int|
            0 <= i < split_on_dots(s).len() ==> !(#[trigger] split_on_dots(s)[i]).contains('.'),
    decreases s.len(),
{
    if s.len() > 0 {
        lemma_split_pieces_dot_free(s.drop_last());
        lemma_split_on_dots_non_empty(s.drop_last());
        let r = split_on_dots(s.drop_last());
        if s.last() != '.' {
            let last = r.last().push(s.last());
            assert forall|j: int| 0 <= j < last.len() implies last[j] != '.' by {
                if j < r.last().len() {
                    assert(last[j] == r.last()[j]);
                    assert(r[r.len() - 1] == r.last());
                }
            }
        }
    }
}

/// The non-empty pieces keep the properties of all pieces.
proof fn lemma_non_empty_pieces(ps: Seq<Seq<char>>)
    requires
        forall|i: int| 0 <= i < ps.len() ==> !(#[trigger] ps[i]).contains('.'),
    ensures
        forall|i: int|
            0 <= i < non_empty(ps).len() ==> (#[trigger] non_empty(ps)[i]).len() > 0
                && !non_empty(ps)[i].contains('.'),
    decreases ps.len(),
{
    if ps.len() > 0 {
        assert forall|i: int| 0 <= i < ps.drop_last().len() implies !(
        #[trigger] ps.drop_last()[i]).contains('.') by {
            assert(ps.drop_last()[i] == ps[i]);
        }
        lemma_non_empty_pieces(ps.drop_last());
        let prev = non_empty(ps.drop_last());
        if ps.last().len() > 0 {
            assert(!ps[ps.len() - 1].contains('.'));
            let all = prev.push(ps.last());
            assert forall|i: int| 0 <= i < all.len() implies (#[trigger] all[i]).len() > 0
                && !all[i].contains('.') by {
                if i < prev.len() {
                    assert(all[i] == prev[i]);
                }
            }
        }
    }
}

/// Every string the split target preprocessor produces is a non-empty piece without dots,
/// and records itself as the split string.
pub proof fn lemma_split_outputs_are_pieces(
    ignore_tld: bool,
    s: Seq<char>,
    md: Map<Seq<char>, MetaValueView>,
)
    ensures
        forall|i: int|
            0 <= i < split_outputs(ignore_tld, s, md).len() ==> {
                let (piece, meta) = #[trigger] split_outputs(ignore_tld, s, md)[i];
                &&& piece.len() > 0
                &&& !piece.contains('.')
                &&& meta.contains_key("split_string"@)
                &&& meta["split_string"@] == MetaValueView::Str(piece)
            },
{
    lemma_split_pieces_dot_free(s);
    lemma_non_empty_pieces(split_on_dots(s));
    reveal_strlit("split_string");
    reveal_strlit("split_position");
    assert("split_string"@.len() != "split_position"@.len());
}

/// The items whose flag is set, in order, keep the flag's property.
proof fn lemma_kept_items(items: Seq<ItemView>, keep: Seq<bool>, i: int)
    requires
        0 <= i < kept(items, keep).len(),
    ensures
        exists|j: int| 0 <= j < items.len() && keep[j] && #[trigger] items[j] == kept(items, keep)[i],
    decreases items.len(),
{
    let rest = kept(items.drop_last(), keep);
    if i < rest.len() {
        lemma_kept_items(items.drop_last(), keep, i);
        let j = choose|j: int|
            0 <= j < items.drop_last().len() && keep[j] && #[trigger] items.drop_last()[j]
                == rest[i];
        assert(items[j] == items.drop_last()[j]);
    } else {
        assert(items[items.len() - 1] == items.last());
    }
}

/// An exclusion set keeps only strings outside it: with a static list of exact strings, no
/// kept string is on the list; with the loaded lines of a file, no kept string is one of the
/// lines.
pub proof fn lemma_exclusion_keeps_only_outsiders(
    config: ExclusionSetConfig,
    context: PreprocessorContext,
    items: Seq<ItemView>,
    scan_hits: Seq<bool>,
    i: int,
)
    requires
        0 <= i < exclusion_all(config, context, items, scan_hits).len(),
    ensures
        ({
            let kept_string = exclusion_all(config, context, items, scan_hits)[i].0;
            match context {
                PreprocessorContext::ExclusionSet {
                    context: ExclusionSetContext::ExactStaticSet(set),
                } => (!config.regex && config.source is Static) ==> !string_set_contents(
                    set,
                ).contains(kept_string),
                PreprocessorContext::ExclusionSet {
                    context: ExclusionSetContext::ExactFileSet { filter: Some(loaded), .. },
                } => (!config.regex && config.source is File) ==> !loaded.line_set().contains(
                    kept_string,
                ),
                _ => true,
            }
        }),
{
    let flags = Seq::new(
        items.len(),
        |j: int| exclusion_keeps(config, context, items[j].0, scan_hit_at(scan_hits, j)),
    );
    lemma_kept_items(items, flags, i);
}

/// The punycode preprocessor ends with the original string when asked to keep both forms, and
/// produces at most three strings per input: the encoded form, the decoded form and the
/// original.
pub proof fn lemma_punycode_keeps_original(
    cfg: PunycodeConfig,
    s: Seq<char>,
    md: Map<Seq<char>, MetaValueView>,
)
    ensures
        punycode_outputs(cfg, s, md).len() <= 3,
        cfg.keep_both ==> punycode_outputs(cfg, s, md).len() >= 1 && punycode_outputs(
            cfg,
            s,
            md,
        ).last().0 == s,
{
}

} // verus!

verus! {

/// A static list of exact strings, in a context built for it, drops exactly the strings on the
/// list: what the exclusion set passes on is the input strings that are not on the list, in
/// their order.
pub proof fn lemma_built_static_exclusion_drops_listed(
    config: ExclusionSetConfig,
    context: PreprocessorContext,
    items: Seq<ItemView>,
    scan_hits: Seq<bool>,
)
    requires
        !config.regex,
        config.source is Static,
        context_built_for(Preprocessor::ExclusionSet(config), context),
    ensures
        preprocess_spec(Preprocessor::ExclusionSet(config), context, items, scan_hits) == kept(
            items,
            Seq::new(
                items.len(),
                |j: int| !string_views(config.source->Static_0@).contains(items[j].0),
            ),
        ),
{
    let listed = string_views(config.source->Static_0@);
    let flags = Seq::new(
        items.len(),
        |j: int| exclusion_keeps(config, context, items[j].0, scan_hit_at(scan_hits, j)),
    );
    let wanted = Seq::new(items.len(), |j: int| !listed.contains(items[j].0));
    assert forall|j: int| 0 <= j < items.len() implies flags[j] == wanted[j] by {
        assert(listed.to_set().contains(items[j].0) == listed.contains(items[j].0));
    }
    lemma_kept_prefix(items, flags, wanted);
}

} // verus!

verus! {

/// An exact-match exclusion set over the loaded lines of a file drops exactly the strings that
/// are lines of the file: what it passes on is the input strings that are not lines, in their
/// order (a string that only occurs inside a line is kept).
pub proof fn lemma_loaded_file_exclusion_drops_lines(
    config: ExclusionSetConfig,
    path: String,
    loaded: LoadedLines,
    items: Seq<ItemView>,
    scan_hits: Seq<bool>,
)
    requires
        !config.regex,
        config.source is File,
    ensures
        ({
            let context = PreprocessorContext::ExclusionSet {
                context: ExclusionSetContext::ExactFileSet { path, filter: Some(loaded) },
            };
            preprocess_spec(Preprocessor::ExclusionSet(config), context, items, scan_hits) == kept(
                items,
                Seq::new(items.len(), |j: int| !loaded.line_set().contains(items[j].0)),
            )
        }),
{
    let context = PreprocessorContext::ExclusionSet {
        context: ExclusionSetContext::ExactFileSet { path, filter: Some(loaded) },
    };
    let flags = Seq::new(
        items.len(),
        |j: int| exclusion_keeps(config, context, items[j].0, scan_hit_at(scan_hits, j)),
    );
    let wanted = Seq::new(items.len(), |j: int| !loaded.line_set().contains(items[j].0));
    assert forall|j: int| 0 <= j < items.len() implies flags[j] == wanted[j] by {}
    lemma_kept_prefix(items, flags, wanted);
}

/// The items that `kept` keeps are exactly those whose flag is set, in order: an item with its
/// flag set is kept, and every kept item is one with its flag set.
pub proof fn lemma_kept_is_filter(items: Seq<ItemView>, keep: Seq<bool>)
    requires
        keep.len() == items.len(),
    ensures
        forall|j: int| 0 <= j < items.len() && keep[j] ==> kept(items, keep).contains(#[trigger] items[j]),
        forall|x: ItemView| #[trigger] kept(items, keep).contains(x) ==> exists|j: int|
            0 <= j < items.len() && keep[j] && items[j] == x,
    decreases items.len(),
{
    if items.len() > 0 {
        let rest = items.drop_last();
        let rk = keep.drop_last();
        lemma_kept_prefix(rest, keep, rk);
        lemma_kept_is_filter(rest, rk);
        let k = kept(items, keep);
        let kr = kept(rest, rk);
        assert forall|j: int| 0 <= j < items.len() && keep[j] implies k.contains(#[trigger] items[j]) by {
            if j < items.len() - 1 {
                assert(rest[j] == items[j]);
                assert(kr.contains(rest[j]));
                let w = choose|w: int| 0 <= w < kr.len() && kr[w] == rest[j];
                if keep[items.len() - 1] {
                    assert(k[w] == kr[w]);
                }
            } else {
                assert(k[k.len() - 1] == items[j]);
            }
        }
        assert forall|x: ItemView| #[trigger] k.contains(x) implies exists|j: int|
            0 <= j < items.len() && keep[j] && items[j] == x by {
            let w = choose|w: int| 0 <= w < k.len() && k[w] == x;
            if keep[items.len() - 1] && w == k.len() - 1 {
                assert(items[items.len() - 1] == x);
            } else {
                assert(kr[w] == x);
                assert(kr.contains(x));
                let j = choose|j: int| 0 <= j < rest.len() && rk[j] && rest[j] == x;
                assert(items[j] == x && keep[j]);
            }
        }
    }
}

} // verus!
