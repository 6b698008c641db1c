//! Text helpers shared by the launcher's parsers and rankers.

use vstd::prelude::*;

verus! {

/// What `str::to_lowercase` makes of a string (Unicode lowercase mapping).
pub uninterp spec fn lowercase(s: Seq<char>) -> Seq<char>;

/// Whether `c` has the Unicode `White_Space` property, which is what
/// `char::is_whitespace` tests: the controls U+0009 to U+000D, the space,
/// U+0085, U+00A0, U+1680, U+2000 to U+200A, the line and paragraph
/// separators U+2028 and U+2029, U+202F, U+205F and U+3000. The set is
/// kept behind `reveal` so that proofs over text stay cheap.
#[verifier::opaque]
pub open spec fn is_white(c: char) -> bool {
    ||| '\u{9}' <= c <= '\u{d}'
    ||| c == ' '
    ||| c == '\u{85}'
    ||| c == '\u{a0}'
    ||| c == '\u{1680}'
    ||| '\u{2000}' <= c <= '\u{200a}'
    ||| c == '\u{2028}'
    ||| c == '\u{2029}'
    ||| c == '\u{202f}'
    ||| c == '\u{205f}'
    ||| c == '\u{3000}'
}

/// Calls `str::to_lowercase`. The contract claims only that the result is
/// [`lowercase`] of the input: Unicode case mapping is not spelled out.
#[verifier::external_body]
pub(crate) fn to_lower(s: &str) -> (r: String)
    ensures
        r@ == lowercase(s@),
{
    s.to_lowercase()
}

/// Whether `c` is white space, as `char::is_whitespace` decides it.
pub(crate) fn char_is_white(c: char) -> (r: bool)
    ensures
        r == is_white(c),
{
    proof {
        reveal(is_white);
    }
    ('\u{9}' <= c && c <= '\u{d}') || c == ' ' || c == '\u{85}' || c == '\u{a0}' || c == '\u{1680}'
        || ('\u{2000}' <= c && c <= '\u{200a}') || c == '\u{2028}' || c == '\u{2029}'
        || c == '\u{202f}' || c == '\u{205f}' || c == '\u{3000}'
}

/// Calls `str::chars` and collects: the characters of `s`, in order.
#[verifier::external_body]
pub(crate) fn chars_of(s: &str) -> (v: Vec<char>)
    ensures
        v@ == s@,
{
    s.chars().collect()
}

/// Collects characters into a `String` (`FromIterator<char>`): same characters.
#[verifier::external_body]
pub(crate) fn string_of(v: &[char]) -> (s: String)
    ensures
        s@ == v@,
{
    v.iter().collect()
}

/// Compares two string slices with `==` (`PartialEq for str`): equal exactly
/// when they hold the same characters.
#[verifier::external_body]
pub(crate) fn str_eq(a: &str, b: &str) -> (r: bool)
    ensures
        r == (a@ == b@),
{
    a == b
}

/// `s` without leading whitespace.
pub open spec fn trim_start(s: Seq<char>) -> Seq<char>
    decreases s.len(),
{
    if s.len() > 0 && is_white(s[0]) {
        trim_start(s.drop_first())
    } else {
        s
    }
}

/// `s` without trailing whitespace.
pub open spec fn trim_end(s: Seq<char>) -> Seq<char>
    decreases s.len(),
{
    if s.len() > 0 && is_white(s.last()) {
        trim_end(s.drop_last())
    } else {
        s
    }
}

/// `s` without leading or trailing whitespace (`str::trim`).
pub open spec fn trim(s: Seq<char>) -> Seq<char> {
    trim_end(trim_start(s))
}

pub open spec fn is_ascii_digit(c: char) -> bool {
    '0' <= c && c <= '9'
}

pub open spec fn starts_with(s: Seq<char>, p: Seq<char>) -> bool {
    p.len() <= s.len() && s.subrange(0, p.len() as int) == p
}

pub open spec fn ends_with(s: Seq<char>, p: Seq<char>) -> bool {
    p.len() <= s.len() && s.subrange(s.len() - p.len(), s.len() as int) == p
}

/// ASCII lowercase of one character (`char::to_ascii_lowercase`).
pub open spec fn ascii_lower_char(c: char) -> char {
    if 'A' <= c && c <= 'Z' {
        ((c as u32) + 32) as char
    } else {
        c
    }
}

/// ASCII lowercase of a string (`str::to_ascii_lowercase`).
pub open spec fn ascii_lower(s: Seq<char>) -> Seq<char> {
    s.map_values(|c: char| ascii_lower_char(c))
}

pub fn ascii_lower_char_exec(c: char) -> (r: char)
    ensures
        r == ascii_lower_char(c),
{
    if 'A' <= c && c <= 'Z' {
        let n: u32 = (c as u32) + 32;
        assert(0x61 <= n <= 0x7a);
        char_from_ascii(n)
    } else {
        c
    }
}

pub(crate) fn char_from_ascii(n: u32) -> (c: char)
    requires
        n < 128,
    ensures
        c == n as char,
{
    let b: u8 = n as u8;
    b as char
}

/// Copy of `s[a..b]`.
pub fn sub_chars(s: &[char], a: usize, b: usize) -> (r: Vec<char>)
    requires
        a <= b <= s@.len(),
    ensures
        r@ == s@.subrange(a as int, b as int),
{
    let mut r: Vec<char> = Vec::new();
    let mut i = a;
    while i < b
        invariant
            a <= i <= b <= s@.len(),
            r@ == s@.subrange(a as int, i as int),
        decreases b - i,
    {
        r.push(s[i]);
        i = i + 1;
        assert(r@ =~= s@.subrange(a as int, i as int));
    }
    r
}

/// ASCII-lowercased copy of `s`.
pub fn ascii_lower_exec(s: &[char]) -> (r: Vec<char>)
    ensures
        r@ == ascii_lower(s@),
{
    let mut r: Vec<char> = Vec::new();
    let mut i: usize = 0;
    while i < s.len()
        invariant
            i <= s@.len(),
            r@ == ascii_lower(s@.subrange(0, i as int)),
        decreases s@.len() - i,
    {
        let c = ascii_lower_char_exec(s[i]);
        r.push(c);
        i = i + 1;
        assert(r@ =~= ascii_lower(s@.subrange(0, i as int)));
    }
    assert(s@.subrange(0, s@.len() as int) =~= s@);
    r
}

/// Index of the first character that is not whitespace.
pub fn trim_start_index(s: &[char]) -> (i: usize)
    ensures
        i <= s@.len(),
        s@.subrange(i as int, s@.len() as int) == trim_start(s@),
{
    let mut i: usize = 0;
    assert(s@.subrange(0, s@.len() as int) =~= s@);
    while i < s.len() && char_is_white(s[i])
        invariant
            i <= s@.len(),
            trim_start(s@) == trim_start(s@.subrange(i as int, s@.len() as int)),
        decreases s@.len() - i,
    {
        assert(s@.subrange(i as int, s@.len() as int).drop_first() =~= s@.subrange(
            i + 1,
            s@.len() as int,
        ));
        i = i + 1;
    }
    i
}

/// One past the last character of `s[..n]` that is not whitespace.
pub fn trim_end_index(s: &[char], n: usize) -> (j: usize)
    requires
        n <= s@.len(),
    ensures
        j <= n,
        s@.subrange(0, j as int) == trim_end(s@.subrange(0, n as int)),
{
    let mut j = n;
    while j > 0 && char_is_white(s[j - 1])
        invariant
            j <= n <= s@.len(),
            trim_end(s@.subrange(0, n as int)) == trim_end(s@.subrange(0, j as int)),
        decreases j,
    {
        assert(s@.subrange(0, j as int).drop_last() =~= s@.subrange(0, j - 1));
        j = j - 1;
    }
    j
}

/// Bounds `(a, b)` with `s[a..b] == trim(s)`.
pub fn trim_bounds(s: &[char]) -> (r: (usize, usize))
    ensures
        r.0 <= r.1 <= s@.len(),
        s@.subrange(r.0 as int, r.1 as int) == trim(s@),
{
    let a = trim_start_index(s);
    let n = s.len();
    let mut j = n;
    let ghost t = s@.subrange(a as int, n as int);
    assert(t.subrange(0, t.len() as int) =~= t);
    while j > a && char_is_white(s[j - 1])
        invariant
            a <= j <= n == s@.len(),
            t == s@.subrange(a as int, n as int),
            trim_end(t) == trim_end(s@.subrange(a as int, j as int)),
        decreases j,
    {
        assert(s@.subrange(a as int, j as int).drop_last() =~= s@.subrange(a as int, j - 1));
        j = j - 1;
    }
    (a, j)
}

/// A trimmed copy of `s`.
pub fn trim_chars(s: &[char]) -> (r: Vec<char>)
    ensures
        r@ == trim(s@),
{
    let (a, b) = trim_bounds(s);
    sub_chars(s, a, b)
}

/// Whether `s` contains character `c`.
pub fn contains_char(s: &[char], c: char) -> (r: bool)
    ensures
        r == s@.contains(c),
{
    let mut i: usize = 0;
    while i < s.len()
        invariant
            i <= s@.len(),
            forall|k: int| 0 <= k < i ==> s@[k] != c,
        decreases s@.len() - i,
    {
        if s[i] == c {
            assert(s@[i as int] == c);
            return true;
        }
        i = i + 1;
    }
    false
}

/// Whether `s` starts with `p`.
pub fn starts_with_exec(s: &[char], p: &[char]) -> (r: bool)
    ensures
        r == starts_with(s@, p@),
{
    if p.len() > s.len() {
        return false;
    }
    let mut i: usize = 0;
    while i < p.len()
        invariant
            p@.len() <= s@.len(),
            i <= p@.len(),
            forall|k: int| 0 <= k < i ==> s@[k] == p@[k],
        decreases p@.len() - i,
    {
        if s[i] != p[i] {
            assert(s@.subrange(0, p@.len() as int)[i as int] != p@[i as int]);
            return false;
        }
        i = i + 1;
    }
    assert(s@.subrange(0, p@.len() as int) =~= p@);
    true
}

/// Whether `s` equals `p`.
pub fn chars_eq(s: &[char], p: &[char]) -> (r: bool)
    ensures
        r == (s@ == p@),
{
    if s.len() != p.len() {
        return false;
    }
    let r = starts_with_exec(s, p);
    assert(s@.subrange(0, s@.len() as int) =~= s@);
    r
}


/// End of the word of `s` that starts at `i`: the first whitespace at or
/// after `i`, or the length.
pub open spec fn word_end(s: Seq<char>, i: int) -> int
    decreases s.len() - i,
{
    if i < 0 || i >= s.len() {
        s.len() as int
    } else if is_white(s[i]) {
        i
    } else {
        word_end(s, i + 1)
    }
}

pub proof fn lemma_word_end(s: Seq<char>, i: int)
    requires
        0 <= i <= s.len(),
    ensures
        i <= word_end(s, i) <= s.len(),
        forall|k: int| i <= k < word_end(s, i) ==> !is_white(#[trigger] s[k]),
        word_end(s, i) < s.len() ==> is_white(s[word_end(s, i)]),
    decreases s.len() - i,
{
    if i < s.len() && !is_white(s[i]) {
        lemma_word_end(s, i + 1);
    }
}

/// The whitespace-separated words of `s` from position `i` on
/// (`str::split_whitespace`).
pub open spec fn words_from(s: Seq<char>, i: int) -> Seq<Seq<char>>
    decreases s.len() - i,
{
    if i < 0 || i >= s.len() {
        seq![]
    } else if is_white(s[i]) {
        words_from(s, i + 1)
    } else {
        proof {
            lemma_word_end(s, i + 1);
        }
        seq![s.subrange(i, word_end(s, i + 1))] + words_from(s, word_end(s, i + 1))
    }
}

/// The whitespace-separated words of `s`.
pub fn split_words(s: &[char]) -> (r: Vec<Vec<char>>)
    ensures
        r@.len() == words_from(s@, 0).len(),
        forall|k: int| 0 <= k < r@.len() ==> (#[trigger] r@[k])@ == words_from(s@, 0)[k],
{
    let n = s.len();
    let mut out: Vec<Vec<char>> = Vec::new();
    let mut i: usize = 0;
    while i < n
        invariant
            n == s@.len(),
            i <= n,
            words_from(s@, 0).len() == out@.len() + words_from(s@, i as int).len(),
            forall|k: int| 0 <= k < out@.len() ==> (#[trigger] out@[k])@ == words_from(s@, 0)[k],
            forall|k: int|
                0 <= k < words_from(s@, i as int).len() ==> words_from(s@, 0)[out@.len() + k]
                    == #[trigger] words_from(s@, i as int)[k],
        decreases n - i,
    {
        if char_is_white(s[i]) {
            i = i + 1;
        } else {
            let mut j = i + 1;
            proof {
                lemma_word_end(s@, i + 1);
            }
            while j < n && !char_is_white(s[j])
                invariant
                    n == s@.len(),
                    i < j <= n,
                    word_end(s@, i + 1) == word_end(s@, j as int),
                decreases n - j,
            {
                j = j + 1;
            }
            let ghost rest = words_from(s@, j as int);
            let ghost here = words_from(s@, i as int);
            assert(here =~= seq![s@.subrange(i as int, j as int)] + rest);
            assert(words_from(s@, 0)[out@.len() + 0int] == here[0]);
            out.push(sub_chars(s, i, j));
            proof {
                assert forall|k: int| 0 <= k < rest.len() implies words_from(s@, 0)[out@.len() + k]
                    == #[trigger] rest[k] by {
                    assert(here[k + 1] == rest[k]);
                }
            }
            i = j;
        }
    }
    out
}

/// Whether `s` ends with `p`.
pub fn ends_with_exec(s: &[char], p: &[char]) -> (r: bool)
    ensures
        r == ends_with(s@, p@),
{
    let n = s.len();
    let m = p.len();
    if m > n {
        return false;
    }
    let off = n - m;
    let mut i: usize = 0;
    while i < m
        invariant
            n == s@.len(),
            m == p@.len(),
            off + m == n,
            i <= m,
            forall|k: int| 0 <= k < i ==> s@[off + k] == p@[k],
        decreases m - i,
    {
        if s[off + i] != p[i] {
            assert(s@.subrange(off as int, n as int)[i as int] != p@[i as int]);
            return false;
        }
        i = i + 1;
    }
    assert(s@.subrange(off as int, n as int) =~= p@);
    true
}

/// `a` followed by `b`.
pub fn cat(a: &str, b: &str) -> (r: String)
    ensures
        r@ == a@ + b@,
{
    let mut v = chars_of(a);
    let w = chars_of(b);
    let mut i: usize = 0;
    let ghost base = v@;
    while i < w.len()
        invariant
            i <= w@.len(),
            v@ == base + w@.subrange(0, i as int),
        decreases w@.len() - i,
    {
        v.push(w[i]);
        i = i + 1;
        assert(v@ =~= base + w@.subrange(0, i as int));
    }
    assert(w@.subrange(0, w@.len() as int) =~= w@);
    string_of(&v)
}

/// Two characters with the same ASCII lowercase are equal, or are both ASCII
/// letters.
pub proof fn lemma_same_lower_char(c: char, d: char)
    requires
        ascii_lower_char(c) == ascii_lower_char(d),
    ensures
        c == d || (('A' <= c <= 'Z' || 'a' <= c <= 'z') && ('A' <= d <= 'Z' || 'a' <= d <= 'z')),
{
    if 'A' <= c <= 'Z' {
        assert(0x61 <= (c as u32) + 32 <= 0x7a);
    }
    if 'A' <= d <= 'Z' {
        assert(0x61 <= (d as u32) + 32 <= 0x7a);
    }
}

/// Two texts with the same ASCII lowercase agree, position by position, on
/// the ASCII lowercase of their characters.
pub proof fn lemma_same_lower_at(x: Seq<char>, y: Seq<char>, i: int)
    requires
        ascii_lower(x) == ascii_lower(y),
        0 <= i < x.len(),
    ensures
        x.len() == y.len(),
        ascii_lower_char(x[i]) == ascii_lower_char(y[i]),
{
    assert(x.len() == ascii_lower(x).len());
    assert(ascii_lower(x)[i] == ascii_lower_char(x[i]));
    assert(ascii_lower(y)[i] == ascii_lower_char(y[i]));
}

/// Texts with the same ASCII lowercase agree on white space.
proof fn lemma_same_lower_white(c: char, d: char)
    requires
        ascii_lower_char(c) == ascii_lower_char(d),
    ensures
        is_white(c) == is_white(d),
{
    reveal(is_white);
    lemma_same_lower_char(c, d);
}

/// Trimming the start keeps two texts with the same ASCII lowercase alike.
proof fn lemma_same_lower_trim_start(x: Seq<char>, y: Seq<char>)
    requires
        ascii_lower(x) == ascii_lower(y),
    ensures
        ascii_lower(trim_start(x)) == ascii_lower(trim_start(y)),
    decreases x.len(),
{
    assert(x.len() == ascii_lower(x).len());
    if x.len() > 0 {
        lemma_same_lower_at(x, y, 0);
        lemma_same_lower_white(x[0], y[0]);
        if is_white(x[0]) {
            assert(ascii_lower(x.drop_first()) =~= ascii_lower(x).drop_first());
            assert(ascii_lower(y.drop_first()) =~= ascii_lower(y).drop_first());
            lemma_same_lower_trim_start(x.drop_first(), y.drop_first());
        }
    }
}

/// Trimming the end keeps two texts with the same ASCII lowercase alike.
proof fn lemma_same_lower_trim_end(x: Seq<char>, y: Seq<char>)
    requires
        ascii_lower(x) == ascii_lower(y),
    ensures
        ascii_lower(trim_end(x)) == ascii_lower(trim_end(y)),
    decreases x.len(),
{
    assert(x.len() == ascii_lower(x).len());
    if x.len() > 0 {
        lemma_same_lower_at(x, y, x.len() - 1);
        lemma_same_lower_white(x.last(), y.last());
        if is_white(x.last()) {
            assert(ascii_lower(x.drop_last()) =~= ascii_lower(x).drop_last());
            assert(ascii_lower(y.drop_last()) =~= ascii_lower(y).drop_last());
            lemma_same_lower_trim_end(x.drop_last(), y.drop_last());
        }
    }
}

/// Trimming keeps two texts with the same ASCII lowercase alike.
pub proof fn lemma_same_lower_trim(x: Seq<char>, y: Seq<char>)
    requires
        ascii_lower(x) == ascii_lower(y),
    ensures
        ascii_lower(trim(x)) == ascii_lower(trim(y)),
        ascii_lower(trim_end(x)) == ascii_lower(trim_end(y)),
{
    lemma_same_lower_trim_start(x, y);
    lemma_same_lower_trim_end(trim_start(x), trim_start(y));
    lemma_same_lower_trim_end(x, y);
}

/// Parts of two texts with the same ASCII lowercase are alike.
pub proof fn lemma_same_lower_subrange(x: Seq<char>, y: Seq<char>, a: int, b: int)
    requires
        ascii_lower(x) == ascii_lower(y),
        0 <= a <= b <= x.len(),
    ensures
        ascii_lower(x.subrange(a, b)) == ascii_lower(y.subrange(a, b)),
{
    assert(x.len() == ascii_lower(x).len());
    assert(ascii_lower(x.subrange(a, b)) =~= ascii_lower(x).subrange(a, b));
    assert(ascii_lower(y.subrange(a, b)) =~= ascii_lower(y).subrange(a, b));
}

} // verus!
