//! Character-level helpers shared by the rules and preprocessors.
use vstd::prelude::*;
use vstd::string::StringSliceAdditionalSpecFns;

verus! {

/// The characters of `s`, in order.
pub fn chars_of(s: &str) -> (v: Vec<char>)
    ensures
        v@ == s@,
{
    let mut v: Vec<char> = Vec::new();
    for c in it: s.chars()
        invariant
            v@ == it.seq().take(it.index() as int),
            it.seq() == s@,
    {
        v.push(c);
    }
    v
}

} // verus!

verus! {

/// Whether two strings are equal.
pub fn str_eq(a: &str, b: &str) -> (r: bool)
    ensures
        r == (a@ == b@),
{
    let va = chars_of(a);
    let vb = chars_of(b);
    if va.len() != vb.len() {
        return false;
    }
    let n = va.len();
    for i in 0..n
        invariant
            n == va.len(),
            n == vb.len(),
            va@ == a@,
            vb@ == b@,
            forall|j: int| 0 <= j < i ==> va@[j] == vb@[j],
    {
        if va[i] != vb[i] {
            return false;
        }
    }
    assert(a@ =~= b@);
    true
}

} // verus!

verus! {

/// Whether `needle` occurs at position `i` of `hay`.
pub open spec fn occurs_at(hay: Seq<char>, needle: Seq<char>, i: int) -> bool {
    0 <= i && i + needle.len() <= hay.len() && hay.subrange(i, i + needle.len()) == needle
}

/// Whether `needle` occurs somewhere in `hay`.
pub open spec fn is_substring(needle: Seq<char>, hay: Seq<char>) -> bool {
    exists|i: int| occurs_at(hay, needle, i)
}

/// Whether `needle` occurs at position `i` of `hay` (positions in characters).
fn occurs_at_exec(hay: &Vec<char>, needle: &Vec<char>, i: usize) -> (r: bool)
    requires
        i + needle.len() <= hay.len(),
    ensures
        r == occurs_at(hay@, needle@, i as int),
{
    let n = needle.len();
    for j in 0..n
        invariant
            n == needle.len(),
            i + n <= hay.len(),
            forall|k: int| 0 <= k < j ==> hay@[i + k] == needle@[k],
    {
        if hay[i + j] != needle[j] {
            assert(hay@.subrange(i as int, i + n)[j as int] != needle@[j as int]);
            return false;
        }
    }
    assert(hay@.subrange(i as int, i + n) =~= needle@);
    true
}

/// Whether `needle` occurs in `hay`.
pub fn contains_str(hay: &str, needle: &str) -> (r: bool)
    ensures
        r == is_substring(needle@, hay@),
{
    let h = chars_of(hay);
    let n = chars_of(needle);
    if n.len() > h.len() {
        return false;
    }
    let last = h.len() - n.len();
    for i in 0..last
        invariant
            h@ == hay@,
            n@ == needle@,
            last == h.len() - n.len(),
            n.len() <= h.len(),
            forall|k: int| 0 <= k < i ==> !occurs_at(hay@, needle@, k),
    {
        if occurs_at_exec(&h, &n, i) {
            return true;
        }
    }
    if occurs_at_exec(&h, &n, last) {
        return true;
    }
    proof { true_if_none(hay@, needle@); }
    false
}

proof fn true_if_none(hay: Seq<char>, needle: Seq<char>)
    requires
        needle.len() <= hay.len(),
        forall|k: int| 0 <= k <= hay.len() - needle.len() ==> !occurs_at(hay, needle, k),
    ensures
        !is_substring(needle, hay),
{
}

} // verus!

verus! {

/// A boundary of `bytes` past a boundary `i` is a boundary of the suffix starting at `i`.
pub proof fn lemma_boundary_in_suffix(bytes: Seq<u8>, i: int, j: int)
    requires
        vstd::utf8::valid_utf8(bytes),
        0 <= i <= j <= bytes.len(),
        vstd::utf8::is_char_boundary(bytes, i),
        vstd::utf8::is_char_boundary(bytes, j),
    ensures
        vstd::utf8::valid_utf8(bytes.subrange(i, bytes.len() as int)),
        vstd::utf8::is_char_boundary(bytes.subrange(i, bytes.len() as int), j - i),
{
    let suffix = bytes.subrange(i, bytes.len() as int);
    vstd::utf8::valid_utf8_split(bytes, i);
    if j == bytes.len() {
        vstd::utf8::is_char_boundary_start_end_of_seq(suffix);
        assert(suffix.len() == j - i);
    } else {
        vstd::utf8::is_char_boundary_iff_not_is_continuation_byte(bytes, j);
        vstd::utf8::is_char_boundary_iff_not_is_continuation_byte(suffix, j - i);
        assert(suffix[j - i] == bytes[j]);
    }
}

/// The bytes `[start, start + len)` of `s`, as a string slice.
pub fn byte_slice(s: &str, start: usize, len: usize) -> (r: &str)
    requires
        start + len <= s.spec_bytes().len(),
        vstd::utf8::is_char_boundary(s.spec_bytes(), start as int),
        vstd::utf8::is_char_boundary(s.spec_bytes(), start + len),
    ensures
        r.spec_bytes() == s.spec_bytes().subrange(start as int, start + len),
{
    proof {
        vstd::utf8::encode_utf8_valid_utf8(s@);
        lemma_boundary_in_suffix(s.spec_bytes(), start as int, start + len);
    }
    let (_, rest) = s.split_at(start);
    let (sub, _) = rest.split_at(len);
    assert(sub.spec_bytes() =~= s.spec_bytes().subrange(start as int, start + len));
    sub
}

} // verus!

verus! {

/// Whether every character of `s` is ASCII.
pub open spec fn all_ascii(s: Seq<char>) -> bool {
    vstd::utf8::is_ascii_chars(s)
}

/// `c` with ASCII letters `A`-`Z` mapped to `a`-`z`.
pub open spec fn ascii_lower_char(c: char) -> char {
    if 'A' <= c && c <= 'Z' {
        ((c as u32) + 32) as char
    } else {
        c
    }
}

/// `s` with ASCII letters `A`-`Z` mapped to `a`-`z`.
pub open spec fn ascii_lowercase(s: Seq<char>) -> Seq<char> {
    s.map_values(|c: char| ascii_lower_char(c))
}

/// The Unicode lowercase form of `s`, as computed by `str::to_lowercase`.
pub uninterp spec fn lowercase(s: Seq<char>) -> Seq<char>;

/// Lowercase form of a string, computed by `str::to_lowercase` of the standard library.
///
/// Trusted: the result depends on `s` alone and is named [`lowercase`]; for an ASCII string
/// it is the string with `A`-`Z` mapped to `a`-`z`, as Unicode case mapping does for those
/// letters. Nothing more of the Unicode case tables is stated.
#[verifier::external_body]
pub fn to_lowercase(s: &str) -> (r: String)
    ensures
        r@ == lowercase(s@),
        all_ascii(s@) ==> r@ == ascii_lowercase(s@),
{
    s.to_lowercase()
}

/// A string holding the characters of `v`, built by `String::from_iter` of the standard
/// library.
///
/// Trusted: the resulting string consists of exactly the characters of `v`, in order.
#[verifier::external_body]
pub fn string_from_chars(v: &Vec<char>) -> (r: String)
    ensures
        r@ == v@,
{
    String::from_iter(v.iter())
}

/// The byte of an ASCII character.
pub fn ascii_byte(c: char) -> (b: u8)
    requires
        c <= '\u{7f}',
    ensures
        b == c as u8,
        b <= 0x7f,
{
    let code: u32 = c as u32;
    code as u8
}

/// Whether a character is ASCII.
pub fn char_is_ascii(c: char) -> (r: bool)
    ensures
        r == (c <= '\u{7f}'),
{
    c <= '\u{7f}'
}

} // verus!

verus! {

/// The character sequences of a sequence of strings.
pub open spec fn string_views(v: Seq<String>) -> Seq<Seq<char>> {
    v.map_values(|s: String| s@)
}

} // verus!

verus! {

/// Whether `s` begins with `prefix`.
pub open spec fn has_prefix(s: Seq<char>, prefix: Seq<char>) -> bool {
    prefix.len() <= s.len() && s.take(prefix.len() as int) == prefix
}

/// Whether `s` begins with `prefix`.
pub fn starts_with(s: &str, prefix: &str) -> (r: bool)
    ensures
        r == has_prefix(s@, prefix@),
{
    let vs = chars_of(s);
    let vp = chars_of(prefix);
    if vp.len() > vs.len() {
        return false;
    }
    let n = vp.len();
    for i in 0..n
        invariant
            n == vp.len(),
            n <= vs.len(),
            vs@ == s@,
            vp@ == prefix@,
            forall|j: int| 0 <= j < i ==> vs@[j] == vp@[j],
    {
        if vs[i] != vp[i] {
            assert(s@.take(n as int)[i as int] != prefix@[i as int]);
            return false;
        }
    }
    assert(s@.take(n as int) =~= prefix@);
    true
}

/// `s` with every occurrence of `pat` removed, scanning from the start and removing
/// occurrences that do not overlap, as `str::replace(pat, "")` does.
pub open spec fn remove_occurrences(s: Seq<char>, pat: Seq<char>) -> Seq<char>
    recommends
        pat.len() > 0,
    decreases s.len(),
{
    if s.len() == 0 || pat.len() == 0 {
        s
    } else if has_prefix(s, pat) {
        remove_occurrences(s.skip(pat.len() as int), pat)
    } else {
        seq![s[0]] + remove_occurrences(s.skip(1), pat)
    }
}

/// `s` with every occurrence of the non-empty `pat` removed.
pub fn remove_all(s: &str, pat: &str) -> (r: String)
    requires
        pat@.len() > 0,
    ensures
        r@ == remove_occurrences(s@, pat@),
{
    let vs = chars_of(s);
    let vp = chars_of(pat);
    let n = vs.len();
    let m = vp.len();
    let mut out: Vec<char> = Vec::new();
    let mut i: usize = 0;
    assert(s@.skip(0) =~= s@);
    assert(out@ + remove_occurrences(s@, pat@) =~= remove_occurrences(s@, pat@));
    while i < n
        invariant
            vs@ == s@,
            vp@ == pat@,
            n == vs.len(),
            m == vp.len(),
            m > 0,
            i <= n,
            out@ + remove_occurrences(s@.skip(i as int), pat@) == remove_occurrences(s@, pat@),
        decreases n - i,
    {
        let ghost rest = s@.skip(i as int);
        let mut matches = m <= n - i;
        if matches {
            let mut j: usize = 0;
            while j < m
                invariant
                    i + m <= n,
                    m == vp.len(),
                    n == vs.len(),
                    j <= m,
                    matches == (forall|k: int| 0 <= k < j ==> vs@[i + k] == vp@[k]),
                decreases m - j,
            {
                if vs[i + j] != vp[j] {
                    matches = false;
                }
                j = j + 1;
            }
            proof {
                if matches {
                    assert(rest.take(m as int) =~= pat@);
                } else {
                    let k = choose|k: int| 0 <= k < m && vs@[i + k] != vp@[k];
                    assert(rest.take(m as int)[k] != pat@[k]);
                }
            }
        }
        assert(matches == has_prefix(rest, pat@));
        if matches {
            assert(rest.skip(m as int) =~= s@.skip(i + m));
            i = i + m;
        } else {
            proof {
                assert(rest.skip(1) =~= s@.skip(i + 1));
                assert(rest[0] == vs@[i as int]);
                assert(out@.push(vs@[i as int]) + remove_occurrences(s@.skip(i + 1), pat@) =~= out@
                    + (seq![rest[0]] + remove_occurrences(rest.skip(1), pat@)));
            }
            out.push(vs[i]);
            i = i + 1;
        }
    }
    proof {
        assert(s@.skip(n as int) =~= Seq::<char>::empty());
        assert(out@ + Seq::<char>::empty() =~= out@);
    }
    string_from_chars(&out)
}

/// Whether `s` holds the character `c`.
pub fn contains_char(s: &str, c: char) -> (r: bool)
    ensures
        r == s@.contains(c),
{
    let v = chars_of(s);
    let n = v.len();
    for i in 0..n
        invariant
            n == v.len(),
            v@ == s@,
            forall|j: int| 0 <= j < i ==> v@[j] != c,
    {
        if v[i] == c {
            assert(s@[i as int] == c);
            return true;
        }
    }
    false
}

} // verus!

verus! {

/// Whether `c` has the Unicode `Alphabetic` property, as `char::is_alphabetic` computes it.
pub uninterp spec fn is_alphabetic(c: char) -> bool;

/// The uppercase mapping of `c`, as `char::to_uppercase` yields it.
pub uninterp spec fn uppercase_of(c: char) -> Seq<char>;

/// `char::is_alphabetic`.
///
/// Trusted: the answer depends on `c` alone and is named [`is_alphabetic`].
#[verifier::external_body]
pub fn char_is_alphabetic(c: char) -> (r: bool)
    ensures
        r == is_alphabetic(c),
{
    c.is_alphabetic()
}

/// The characters that `char::to_uppercase` yields.
///
/// Trusted: they depend on `c` alone and are named [`uppercase_of`].
#[verifier::external_body]
pub fn char_uppercase(c: char) -> (r: Vec<char>)
    ensures
        r@ == uppercase_of(c),
{
    c.to_uppercase().collect()
}

/// Whether `c` is one of `A`-`Z`.
pub open spec fn is_ascii_upper(c: char) -> bool {
    'A' <= c && c <= 'Z'
}

/// Whether every alphabetic character of `s` uppercases to letters `A`-`Z` only (characters
/// that are not alphabetic may be anything).
pub open spec fn letters_uppercase_to_ascii(s: Seq<char>) -> bool {
    forall|i: int, j: int|
        0 <= i < s.len() && #[trigger] is_alphabetic(s[i]) && 0 <= j < uppercase_of(s[i]).len()
            ==> is_ascii_upper(#[trigger] uppercase_of(s[i])[j])
}

/// Whether `c` is one of `A`-`Z`.
fn char_is_ascii_upper(c: char) -> (r: bool)
    ensures
        r == is_ascii_upper(c),
{
    if !char_is_ascii(c) {
        return false;
    }
    let b = ascii_byte(c);
    b >= 65 && b <= 90
}

/// Whether every alphabetic character of `s` uppercases to letters `A`-`Z` only.
pub fn check_letters_uppercase_to_ascii(s: &str) -> (r: bool)
    ensures
        r == letters_uppercase_to_ascii(s@),
{
    let chars = chars_of(s);
    let n = chars.len();
    for i in 0..n
        invariant
            n == chars.len(),
            chars@ == s@,
            forall|a: int, j: int|
                0 <= a < i && #[trigger] is_alphabetic(s@[a]) && 0 <= j < uppercase_of(s@[a]).len()
                    ==> is_ascii_upper(#[trigger] uppercase_of(s@[a])[j]),
    {
        let c = chars[i];
        if char_is_alphabetic(c) {
            let upper = char_uppercase(c);
            let m = upper.len();
            for j in 0..m
                invariant
                    m == upper.len(),
                    upper@ == uppercase_of(c),
                    i < n,
                    n == chars.len(),
                    chars@ == s@,
                    c == s@[i as int],
                    is_alphabetic(c),
                    forall|b: int| 0 <= b < j ==> is_ascii_upper(upper@[b]),
            {
                if !char_is_ascii_upper(upper[j]) {
                    assert(is_alphabetic(s@[i as int]));
                    assert(!is_ascii_upper(uppercase_of(s@[i as int])[j as int]));
                    return false;
                }
            }
        }
    }
    true
}


} // verus!
