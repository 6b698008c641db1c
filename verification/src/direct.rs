//! Queries that name their target directly instead of searching for it: a
//! URL or file path to open, a `> command` to run, or a user quicklink
//! (`aw wayland`). They work on the raw query, because paths and URLs are
//! case-sensitive.

use crate::config::Quicklink;
use crate::rank::{find_after, find_from, utf8_len, utf8_prefix_len};
use crate::text::{
    char_from_ascii, char_is_white, chars_eq, chars_of, is_white, lowercase, starts_with, starts_with_exec,
    str_eq, string_of, sub_chars, to_lower, trim, trim_chars,
};
use vstd::prelude::*;

verus! {

/// What a direct query resolves to.
#[derive(Clone, Debug, PartialEq, Eq)]
pub enum Target {
    /// Open a URL in the default browser.
    Url(String),
    /// Open an existing file or folder with its default application.
    Path(String),
    /// Run a shell command line.
    Command(String),
    /// A quicklink; `url` is ready to open. `term` is `None` for a bookmark
    /// or a search quicklink typed without a term (then `url` is its site).
    Quicklink { name: String, url: String, term: Option<String>, icon: Option<String> },
}

/// A [`Target`] with its texts as character sequences.
pub enum TargetView {
    Url(Seq<char>),
    Path(Seq<char>),
    Command(Seq<char>),
    Quicklink {
        name: Seq<char>,
        url: Seq<char>,
        term: Option<Seq<char>>,
        icon: Option<Seq<char>>,
    },
}

pub open spec fn opt_view(o: Option<String>) -> Option<Seq<char>> {
    match o {
        Some(s) => Some(s@),
        None => None,
    }
}

impl View for Target {
    type V = TargetView;

    open spec fn view(&self) -> TargetView {
        match self {
            Target::Url(u) => TargetView::Url(u@),
            Target::Path(p) => TargetView::Path(p@),
            Target::Command(c) => TargetView::Command(c@),
            Target::Quicklink { name, url, term, icon } => TargetView::Quicklink {
                name: name@,
                url: url@,
                term: opt_view(*term),
                icon: opt_view(*icon),
            },
        }
    }
}

/// A query classified without looking at the disk: a target, a path that is
/// a target if it exists, or nothing.
pub enum Resolution {
    Found(Target),
    Candidate(String),
    Nothing,
}

/// [`Resolution`] with its texts as character sequences.
pub enum ResolutionView {
    Found(TargetView),
    Candidate(Seq<char>),
    Nothing,
}

impl View for Resolution {
    type V = ResolutionView;

    open spec fn view(&self) -> ResolutionView {
        match self {
            Resolution::Found(t) => ResolutionView::Found(t@),
            Resolution::Candidate(p) => ResolutionView::Candidate(p@),
            Resolution::Nothing => ResolutionView::Nothing,
        }
    }
}

// ---------------------------------------------------------------------------
// Specification
// ---------------------------------------------------------------------------

/// Position of the first whitespace character of `s` at or after `i`, or the
/// length of `s`.
pub open spec fn first_white(s: Seq<char>, i: int) -> int
    decreases s.len() - i,
{
    if i < 0 || i >= s.len() {
        s.len() as int
    } else if is_white(s[i]) {
        i
    } else {
        first_white(s, i + 1)
    }
}

/// Position of the first of `/`, `?`, `#` in `s`, or its length.
pub open spec fn host_end(s: Seq<char>, i: int) -> int
    decreases s.len() - i,
{
    if i < 0 || i >= s.len() {
        s.len() as int
    } else if s[i] == '/' || s[i] == '?' || s[i] == '#' {
        i
    } else {
        host_end(s, i + 1)
    }
}

/// Position of the first `c` in `s`, or its length.
pub open spec fn char_end(s: Seq<char>, c: char, i: int) -> int
    decreases s.len() - i,
{
    if i < 0 || i >= s.len() {
        s.len() as int
    } else if s[i] == c {
        i
    } else {
        char_end(s, c, i + 1)
    }
}

/// Position of the last `c` in `s`, or -1.
pub open spec fn last_of(s: Seq<char>, c: char) -> int
    decreases s.len(),
{
    if s.len() == 0 {
        -1
    } else if s.last() == c {
        s.len() - 1
    } else {
        last_of(s.drop_last(), c)
    }
}

/// The first quicklink whose keyword is `kw`.
pub open spec fn link_index(links: Seq<Quicklink>, kw: Seq<char>, i: int) -> Option<int>
    decreases links.len() - i,
{
    if i < 0 || i >= links.len() {
        None
    } else if links[i].keyword@ == kw {
        Some(i)
    } else {
        link_index(links, kw, i + 1)
    }
}

/// `s` with every non-overlapping occurrence of `pat` (scanning from `i`,
/// left to right) replaced by `rep`.
pub open spec fn replace_from(s: Seq<char>, pat: Seq<char>, rep: Seq<char>, i: int) -> Seq<char>
    recommends
        pat.len() > 0,
    decreases s.len() - i,
{
    if i < 0 || i > s.len() || pat.len() == 0 {
        seq![]
    } else {
        match find_from(s, pat, i) {
            None => s.subrange(i, s.len() as int),
            Some(j) => if i <= j && j + pat.len() <= s.len() {
                s.subrange(i, j) + rep + replace_from(s, pat, rep, j + pat.len())
            } else {
                seq![]
            },
        }
    }
}

/// The UTF-8 encoding of `c`.
pub open spec fn utf8_bytes(c: char) -> Seq<u8> {
    let v = c as int;
    if v < 0x80 {
        seq![v as u8]
    } else if v < 0x800 {
        seq![(0xC0 + v / 64) as u8, (0x80 + v % 64) as u8]
    } else if v < 0x10000 {
        seq![(0xE0 + v / 4096) as u8, (0x80 + (v / 64) % 64) as u8, (0x80 + v % 64) as u8]
    } else {
        seq![
            (0xF0 + v / 262144) as u8,
            (0x80 + (v / 4096) % 64) as u8,
            (0x80 + (v / 64) % 64) as u8,
            (0x80 + v % 64) as u8,
        ]
    }
}

/// Bytes kept as they are in a URL query: ASCII letters, digits and `-_.~`.
pub open spec fn unreserved(b: u8) -> bool {
    (0x30 <= b <= 0x39) || (0x41 <= b <= 0x5A) || (0x61 <= b <= 0x7A) || b == 0x2D || b == 0x5F
        || b == 0x2E || b == 0x7E
}

/// The uppercase hexadecimal digit of `d < 16`.
pub open spec fn hex_digit(d: u32) -> char {
    if d < 10 {
        ((48 + d) as u32) as char
    } else {
        ((55 + d) as u32) as char
    }
}

/// One byte percent-encoded: itself when unreserved, else `%XX` (uppercase).
pub open spec fn pct_byte(b: u8) -> Seq<char> {
    if unreserved(b) {
        seq![b as char]
    } else {
        seq!['%', hex_digit((b / 16) as u32), hex_digit((b % 16) as u32)]
    }
}

pub open spec fn pct_bytes(bs: Seq<u8>) -> Seq<char>
    decreases bs.len(),
{
    if bs.len() == 0 {
        seq![]
    } else {
        pct_bytes(bs.drop_last()) + pct_byte(bs.last())
    }
}

/// `s` percent-encoded for a URL query, byte by byte of its UTF-8 form
/// (RFC 3986 unreserved characters kept).
pub open spec fn percent_encoded(s: Seq<char>) -> Seq<char>
    decreases s.len(),
{
    if s.len() == 0 {
        seq![]
    } else {
        percent_encoded(s.drop_last()) + pct_bytes(utf8_bytes(s.last()))
    }
}

/// `https://host/` of a URL (the part after `://` up to the first `/`, `?`
/// or `#`), when there is a non-empty host.
pub open spec fn site_root_of(url: Seq<char>) -> Option<Seq<char>> {
    match find_from(url, "://"@, 0) {
        None => None,
        Some(j) => {
            let rest = url.subrange(j + 3, url.len() as int);
            let host = rest.subrange(0, host_end(rest, 0));
            if host.len() == 0 {
                None
            } else {
                Some(url.subrange(0, j) + "://"@ + host + "/"@)
            }
        },
    }
}

/// The quicklink a query invokes: its first word, lowercased, is a keyword;
/// the rest, trimmed, is the term. A bookmark (no `{query}` in its URL) only
/// matches its bare keyword; a search link without a term opens the site.
pub open spec fn quicklink_of(q: Seq<char>, links: Seq<Quicklink>) -> Option<TargetView> {
    let k = first_white(q, 0);
    let keyword = lowercase(q.subrange(0, k));
    let term = if k < q.len() {
        trim(q.subrange(k + 1, q.len() as int))
    } else {
        seq![]
    };
    match link_index(links, keyword, 0) {
        None => None,
        Some(i) => {
            let link = links[i];
            let mk = |url: Seq<char>, term: Option<Seq<char>>|
                TargetView::Quicklink { name: link.name@, url, term, icon: opt_view(link.icon) };
            if find_from(link.url@, "{query}"@, 0) is None {
                if term.len() == 0 {
                    Some(mk(link.url@, None))
                } else {
                    None
                }
            } else if term.len() == 0 {
                match site_root_of(link.url@) {
                    Some(root) => Some(mk(root, None)),
                    None => None,
                }
            } else {
                Some(
                    mk(
                        replace_from(link.url@, "{query}"@, percent_encoded(term), 0),
                        Some(term),
                    ),
                )
            }
        },
    }
}

/// Top-level domains accepted for scheme-less URLs ("github.com/x"). A fixed
/// list keeps names like "firefox.desktop" or "v1.2" from turning into URLs.
pub open spec fn known_tlds() -> Seq<&'static str> {
    seq![
        "com", "org", "net", "de", "io", "dev", "app", "eu", "info", "me", "co", "uk", "at", "ch",
        "nl", "fr", "it", "es", "gg", "tv", "sh", "rs", "ai", "xyz", "gov", "edu", "wiki", "social",
    ]
}

pub open spec fn is_known_tld(t: Seq<char>) -> bool {
    exists|i: int| 0 <= i < known_tlds().len() && (#[trigger] known_tlds()[i])@ == t
}

/// A character allowed in a host label: ASCII letter, digit or `-`.
pub open spec fn label_char(c: char) -> bool {
    ('a' <= c <= 'z') || ('A' <= c <= 'Z') || ('0' <= c <= '9') || c == '-'
}

/// `h` splits at `.` into at least two labels, none empty, all made of
/// label characters.
pub open spec fn valid_labels(h: Seq<char>) -> bool {
    &&& last_of(h, '.') >= 0
    &&& forall|i: int| 0 <= i < h.len() ==> (#[trigger] h[i] == '.' || label_char(h[i]))
    &&& h[0] != '.'
    &&& h.last() != '.'
    &&& forall|i: int| 0 <= i < h.len() - 1 ==> !(#[trigger] h[i] == '.' && h[i + 1] == '.')
}

/// The URL a query names: `http(s)://...` as typed (when more than the
/// scheme), or a bare host with a known top-level domain, given `https://`.
pub open spec fn url_of(q: Seq<char>) -> Option<Seq<char>> {
    if exists|i: int| 0 <= i < q.len() && is_white(#[trigger] q[i]) {
        None
    } else {
        let lower = lowercase(q);
        if starts_with(lower, "http://"@) || starts_with(lower, "https://"@) {
            if utf8_len(q) > 8 {
                Some(q)
            } else {
                None
            }
        } else {
            let h0 = lower.subrange(0, host_end(lower, 0));
            let host = h0.subrange(0, char_end(h0, ':', 0));
            if valid_labels(host) && is_known_tld(
                host.subrange(last_of(host, '.') + 1, host.len() as int),
            ) {
                Some("https://"@ + q)
            } else {
                None
            }
        }
    }
}

/// `rest` appended to the directory `home` as a path: an absolute `rest`
/// replaces it; otherwise a `/` separates them unless `home` is empty or
/// already ends with one.
pub open spec fn join_path(home: Seq<char>, rest: Seq<char>) -> Seq<char> {
    if rest.len() > 0 && rest[0] == '/' {
        rest
    } else if home.len() == 0 || home.last() == '/' {
        home + rest
    } else {
        home + "/"@ + rest
    }
}

/// The path a query names: `~`, `~/...` (under `home`) or an absolute path.
pub open spec fn path_of(q: Seq<char>, home: Option<Seq<char>>) -> Option<Seq<char>> {
    if q == "~"@ {
        home
    } else if starts_with(q, "~/"@) {
        match home {
            Some(h) => Some(join_path(h, q.subrange(2, q.len() as int))),
            None => None,
        }
    } else if q.len() > 0 && q[0] == '/' {
        Some(q)
    } else {
        None
    }
}

/// How a query resolves without looking at the disk: `> command`, else a
/// quicklink, a URL, or a path candidate, tried in that order on the trimmed
/// query.
pub open spec fn classified(query: Seq<char>, links: Seq<Quicklink>, home: Option<Seq<char>>) -> ResolutionView {
    let q = trim(query);
    if q.len() == 0 {
        ResolutionView::Nothing
    } else if q[0] == '>' {
        let c = trim(q.subrange(1, q.len() as int));
        if c.len() == 0 {
            ResolutionView::Nothing
        } else {
            ResolutionView::Found(TargetView::Command(c))
        }
    } else {
        match quicklink_of(q, links) {
            Some(t) => ResolutionView::Found(t),
            None => match url_of(q) {
                Some(u) => ResolutionView::Found(TargetView::Url(u)),
                None => match path_of(q, home) {
                    Some(p) => ResolutionView::Candidate(p),
                    None => ResolutionView::Nothing,
                },
            },
        }
    }
}

// ---------------------------------------------------------------------------
// Implementation
// ---------------------------------------------------------------------------

fn first_white_exec(s: &[char], i: usize) -> (r: usize)
    requires
        i <= s@.len(),
    ensures
        r == first_white(s@, i as int),
        i <= r <= s@.len(),
{
    let mut k = i;
    while k < s.len()
        invariant
            i <= k <= s@.len(),
            first_white(s@, i as int) == first_white(s@, k as int),
        decreases s@.len() - k,
    {
        if char_is_white(s[k]) {
            return k;
        }
        k = k + 1;
    }
    k
}

fn host_end_exec(s: &[char]) -> (r: usize)
    ensures
        r == host_end(s@, 0),
        r <= s@.len(),
{
    let mut k: usize = 0;
    while k < s.len()
        invariant
            k <= s@.len(),
            host_end(s@, 0) == host_end(s@, k as int),
        decreases s@.len() - k,
    {
        let c = s[k];
        if c == '/' || c == '?' || c == '#' {
            return k;
        }
        k = k + 1;
    }
    k
}

fn char_end_exec(s: &[char], c: char) -> (r: usize)
    ensures
        r == char_end(s@, c, 0),
        r <= s@.len(),
{
    let mut k: usize = 0;
    while k < s.len()
        invariant
            k <= s@.len(),
            char_end(s@, c, 0) == char_end(s@, c, k as int),
        decreases s@.len() - k,
    {
        if s[k] == c {
            return k;
        }
        k = k + 1;
    }
    k
}

proof fn lemma_last_of(s: Seq<char>, c: char)
    ensures
        -1 <= last_of(s, c) < s.len(),
        last_of(s, c) >= 0 ==> s[last_of(s, c)] == c,
        forall|j: int| last_of(s, c) < j < s.len() ==> s[j] != c,
        (last_of(s, c) >= 0) <==> exists|j: int| 0 <= j < s.len() && s[j] == c,
    decreases s.len(),
{
    if s.len() > 0 {
        lemma_last_of(s.drop_last(), c);
        if s.last() != c {
            assert forall|j: int| last_of(s, c) < j < s.len() implies s[j] != c by {
                if j < s.len() - 1 {
                    assert(s[j] == s.drop_last()[j]);
                }
            }
            if exists|j: int| 0 <= j < s.len() && s[j] == c {
                let j = choose|j: int| 0 <= j < s.len() && s[j] == c;
                assert(s.drop_last()[j] == c);
            }
        }
    }
}

fn last_of_exec(s: &[char], c: char) -> (r: Option<usize>)
    ensures
        match r {
            Some(i) => last_of(s@, c) == i as int,
            None => last_of(s@, c) == -1,
        },
{
    let mut k = s.len();
    assert(s@.subrange(0, k as int) =~= s@);
    while k > 0
        invariant
            k <= s@.len(),
            last_of(s@, c) == last_of(s@.subrange(0, k as int), c),
        decreases k,
    {
        assert(s@.subrange(0, k as int).drop_last() =~= s@.subrange(0, k - 1));
        if s[k - 1] == c {
            return Some(k - 1);
        }
        k = k - 1;
    }
    None
}

fn label_char_exec(c: char) -> (r: bool)
    ensures
        r == label_char(c),
{
    ('a' <= c && c <= 'z') || ('A' <= c && c <= 'Z') || ('0' <= c && c <= '9') || c == '-'
}

fn valid_labels_exec(h: &[char]) -> (r: bool)
    ensures
        r == valid_labels(h@),
{
    proof {
        lemma_last_of(h@, '.');
    }
    let n = h.len();
    if n == 0 {
        return false;
    }
    if h[0] == '.' || h[n - 1] == '.' {
        return false;
    }
    let mut dot = false;
    let mut i: usize = 0;
    while i < n
        invariant
            n == h@.len(),
            i <= n,
            dot == exists|j: int| 0 <= j < i && h@[j] == '.',
            forall|j: int| 0 <= j < i ==> (#[trigger] h@[j] == '.' || label_char(h@[j])),
            forall|j: int| 0 <= j < i && j < n - 1 ==> !(#[trigger] h@[j] == '.' && h@[j + 1] == '.'),
        decreases n - i,
    {
        let c = h[i];
        if c == '.' {
            if i + 1 < n && h[i + 1] == '.' {
                return false;
            }
            dot = true;
        } else if !label_char_exec(c) {
            return false;
        }
        i = i + 1;
    }
    dot
}

fn known_tld(t: &[char]) -> (r: bool)
    ensures
        r == is_known_tld(t@),
{
    let tlds: &[&str] = &[
        "com", "org", "net", "de", "io", "dev", "app", "eu", "info", "me", "co", "uk", "at", "ch",
        "nl", "fr", "it", "es", "gg", "tv", "sh", "rs", "ai", "xyz", "gov", "edu", "wiki", "social",
    ];
    assert(tlds@ =~= known_tlds());
    let mut i: usize = 0;
    while i < tlds.len()
        invariant
            tlds@ == known_tlds(),
            i <= tlds@.len(),
            forall|k: int| 0 <= k < i ==> (#[trigger] known_tlds()[k])@ != t@,
        decreases tlds@.len() - i,
    {
        if chars_eq(&chars_of(tlds[i]), t) {
            return true;
        }
        i = i + 1;
    }
    false
}

fn find_link(links: &[Quicklink], kw: &str) -> (r: Option<usize>)
    ensures
        match r {
            Some(i) => link_index(links@, kw@, 0) == Some(i as int) && i < links@.len(),
            None => link_index(links@, kw@, 0) is None,
        },
{
    let mut i: usize = 0;
    while i < links.len()
        invariant
            i <= links@.len(),
            link_index(links@, kw@, 0) == link_index(links@, kw@, i as int),
        decreases links@.len() - i,
    {
        if str_eq(links[i].keyword.as_str(), kw) {
            return Some(i);
        }
        i = i + 1;
    }
    None
}

/// `s` with every occurrence of `pat` replaced by `rep` (`str::replace`).
#[verifier::loop_isolation(false)]
pub(crate) fn replace_all(s: &[char], pat: &[char], rep: &[char]) -> (r: Vec<char>)
    requires
        pat@.len() > 0,
    ensures
        r@ == replace_from(s@, pat@, rep@, 0),
{
    let mut out: Vec<char> = Vec::new();
    let mut i: usize = 0;
    loop
        invariant
            pat@.len() > 0,
            i <= s@.len(),
            replace_from(s@, pat@, rep@, 0) == out@ + replace_from(s@, pat@, rep@, i as int),
        decreases s@.len() - i,
    {
        match find_after(s, pat, i) {
            None => {
                let tail = sub_chars(s, i, s.len());
                let ghost before = out@;
                let mut k: usize = 0;
                while k < tail.len()
                    invariant
                        k <= tail@.len(),
                        out@ == before + tail@.subrange(0, k as int),
                    decreases tail@.len() - k,
                {
                    out.push(tail[k]);
                    k = k + 1;
                    assert(out@ =~= before + tail@.subrange(0, k as int));
                }
                assert(tail@.subrange(0, tail@.len() as int) =~= tail@);
                return out;
            },
            Some(j) => {
                let sl = s.len();
                let pl = pat.len();
                assert(j + pl <= sl);
                let next = j + pl;
                let ghost before = out@;
                let mut k: usize = i;
                while k < j
                    invariant
                        i <= k <= j,
                        j <= s@.len(),
                        out@ == before + s@.subrange(i as int, k as int),
                    decreases j - k,
                {
                    out.push(s[k]);
                    k = k + 1;
                    assert(out@ =~= before + s@.subrange(i as int, k as int));
                }
                let ghost mid = out@;
                let mut k: usize = 0;
                while k < rep.len()
                    invariant
                        k <= rep@.len(),
                        out@ == mid + rep@.subrange(0, k as int),
                    decreases rep@.len() - k,
                {
                    out.push(rep[k]);
                    k = k + 1;
                    assert(out@ =~= mid + rep@.subrange(0, k as int));
                }
                assert(rep@.subrange(0, rep@.len() as int) =~= rep@);
                assert(out@ =~= before + (s@.subrange(i as int, j as int) + rep@));
                i = next;
            },
        }
    }
}

/// The UTF-8 encoding of `c`.
pub(crate) fn utf8_encode(c: char) -> (r: Vec<u8>)
    ensures
        r@ == utf8_bytes(c),
{
    let v: u32 = c as u32;
    let mut out: Vec<u8> = Vec::new();
    if v < 0x80 {
        out.push(v as u8);
    } else if v < 0x800 {
        out.push((0xC0 + v / 64) as u8);
        out.push((0x80 + v % 64) as u8);
    } else if v < 0x10000 {
        out.push((0xE0 + v / 4096) as u8);
        out.push((0x80 + (v / 64) % 64) as u8);
        out.push((0x80 + v % 64) as u8);
    } else {
        assert(v <= 0x10FFFF);
        out.push((0xF0 + v / 262144) as u8);
        out.push((0x80 + (v / 4096) % 64) as u8);
        out.push((0x80 + (v / 64) % 64) as u8);
        out.push((0x80 + v % 64) as u8);
    }
    assert(out@ =~= utf8_bytes(c));
    out
}

fn hex_digit_exec(d: u32) -> (c: char)
    requires
        d < 16,
    ensures
        c == hex_digit(d),
{
    if d < 10 {
        char_from_ascii(48 + d)
    } else {
        char_from_ascii(55 + d)
    }
}

fn unreserved_exec(b: u8) -> (r: bool)
    ensures
        r == unreserved(b),
{
    (0x30 <= b && b <= 0x39) || (0x41 <= b && b <= 0x5A) || (0x61 <= b && b <= 0x7A) || b == 0x2D
        || b == 0x5F || b == 0x2E || b == 0x7E
}

/// Percent-encode a search term for a URL query (RFC 3986 unreserved kept).
pub fn percent_encode(text: &str) -> (r: String)
    ensures
        r@ == percent_encoded(text@),
{
    let cs = chars_of(text);
    let mut out: Vec<char> = Vec::new();
    let mut i: usize = 0;
    while i < cs.len()
        invariant
            i <= cs@.len(),
            out@ == percent_encoded(cs@.subrange(0, i as int)),
        decreases cs@.len() - i,
    {
        assert(cs@.subrange(0, i + 1).drop_last() =~= cs@.subrange(0, i as int));
        let bytes = utf8_encode(cs[i]);
        let ghost base = out@;
        let mut k: usize = 0;
        while k < bytes.len()
            invariant
                k <= bytes@.len(),
                out@ == base + pct_bytes(bytes@.subrange(0, k as int)),
            decreases bytes@.len() - k,
        {
            assert(bytes@.subrange(0, k + 1).drop_last() =~= bytes@.subrange(0, k as int));
            let b = bytes[k];
            if unreserved_exec(b) {
                out.push(b as char);
            } else {
                out.push('%');
                out.push(hex_digit_exec((b / 16) as u32));
                out.push(hex_digit_exec((b % 16) as u32));
            }
            k = k + 1;
            assert(out@ =~= base + pct_bytes(bytes@.subrange(0, k as int)));
        }
        assert(bytes@.subrange(0, bytes@.len() as int) =~= bytes@);
        i = i + 1;
    }
    assert(cs@.subrange(0, cs@.len() as int) =~= cs@);
    string_of(&out)
}

fn append(out: &mut Vec<char>, s: &[char])
    ensures
        final(out)@ == old(out)@ + s@,
{
    let ghost base = out@;
    let mut k: usize = 0;
    while k < s.len()
        invariant
            k <= s@.len(),
            out@ == base + s@.subrange(0, k as int),
        decreases s@.len() - k,
    {
        out.push(s[k]);
        k = k + 1;
        assert(out@ =~= base + s@.subrange(0, k as int));
    }
    assert(s@.subrange(0, s@.len() as int) =~= s@);
}

/// `https://host/` of a URL, for a search quicklink typed without a term.
fn site_root(url: &[char]) -> (r: Option<Vec<char>>)
    ensures
        match r {
            Some(v) => site_root_of(url@) == Some(v@),
            None => site_root_of(url@) is None,
        },
{
    let sep = chars_of("://");
    proof {
        reveal_strlit("://");
    }
    match find_after(url, &sep, 0) {
        None => None,
        Some(j) => {
            let n = url.len();
            assert(sep@.len() == 3);
            assert(j + 3 <= n);
            let rest = sub_chars(url, j + 3, n);
            let he = host_end_exec(&rest);
            if he == 0 {
                return None;
            }
            let host = sub_chars(&rest, 0, he);
            let mut out = sub_chars(url, 0, j);
            append(&mut out, &sep);
            append(&mut out, &host);
            append(&mut out, &chars_of("/"));
            Some(out)
        },
    }
}

fn copy_opt(s: &Option<String>) -> (r: Option<String>)
    ensures
        r == *s,
{
    match s {
        Some(x) => Some(x.clone()),
        None => None,
    }
}

fn quicklink(q: &[char], links: &[Quicklink]) -> (r: Option<Target>)
    ensures
        match r {
            Some(t) => quicklink_of(q@, links@) == Some(t@),
            None => quicklink_of(q@, links@) is None,
        },
{
    let k = first_white_exec(q, 0);
    let kw_raw = string_of(&sub_chars(q, 0, k));
    let keyword = to_lower(kw_raw.as_str());
    let term: Vec<char> = if k < q.len() {
        trim_chars(&sub_chars(q, k + 1, q.len()))
    } else {
        Vec::new()
    };
    let i = match find_link(links, keyword.as_str()) {
        Some(i) => i,
        None => return None,
    };
    let link = &links[i];
    let url = chars_of(link.url.as_str());
    let placeholder = chars_of("{query}");
    proof {
        reveal_strlit("{query}");
    }
    let ghost spec_term = if k < q@.len() {
        trim(q@.subrange(k + 1, q@.len() as int))
    } else {
        seq![]
    };
    assert(term@ == spec_term);
    if find_after(&url, &placeholder, 0).is_none() {
        if term.len() == 0 {
            return Some(
                Target::Quicklink {
                    name: link.name.clone(),
                    url: link.url.clone(),
                    term: None,
                    icon: copy_opt(&link.icon),
                },
            );
        }
        return None;
    }
    if term.len() == 0 {
        return match site_root(&url) {
            Some(root) => Some(
                Target::Quicklink {
                    name: link.name.clone(),
                    url: string_of(&root),
                    term: None,
                    icon: copy_opt(&link.icon),
                },
            ),
            None => None,
        };
    }
    let term_s = string_of(&term);
    let encoded = chars_of(percent_encode(term_s.as_str()).as_str());
    let filled = replace_all(&url, &placeholder, &encoded);
    Some(
        Target::Quicklink {
            name: link.name.clone(),
            url: string_of(&filled),
            term: Some(term_s),
            icon: copy_opt(&link.icon),
        },
    )
}

fn has_white(q: &[char]) -> (r: bool)
    ensures
        r == exists|i: int| 0 <= i < q@.len() && is_white(#[trigger] q@[i]),
{
    let mut i: usize = 0;
    while i < q.len()
        invariant
            i <= q@.len(),
            forall|j: int| 0 <= j < i ==> !is_white(#[trigger] q@[j]),
        decreases q@.len() - i,
    {
        if char_is_white(q[i]) {
            return true;
        }
        i = i + 1;
    }
    false
}

fn url(q: &[char]) -> (r: Option<Vec<char>>)
    ensures
        match r {
            Some(v) => url_of(q@) == Some(v@),
            None => url_of(q@) is None,
        },
{
    if has_white(q) {
        return None;
    }
    let lower = chars_of(to_lower(string_of(q).as_str()).as_str());
    if starts_with_exec(&lower, &chars_of("http://")) || starts_with_exec(
        &lower,
        &chars_of("https://"),
    ) {
        let n = q.len();
        let bytes = utf8_prefix_len(q, n);
        assert(q@.subrange(0, n as int) =~= q@);
        if bytes > 8 {
            return Some(sub_chars(q, 0, n));
        }
        return None;
    }
    let h0 = sub_chars(&lower, 0, host_end_exec(&lower));
    let host = sub_chars(&h0, 0, char_end_exec(&h0, ':'));
    if !valid_labels_exec(&host) {
        return None;
    }
    let dot = match last_of_exec(&host, '.') {
        Some(d) => d,
        None => return None,
    };
    proof {
        lemma_last_of(host@, '.');
    }
    let tld = sub_chars(&host, dot + 1, host.len());
    if !known_tld(&tld) {
        return None;
    }
    let mut out = chars_of("https://");
    append(&mut out, q);
    Some(out)
}

fn join_path_exec(home: &str, rest: &[char]) -> (r: Vec<char>)
    ensures
        r@ == join_path(home@, rest@),
{
    if rest.len() > 0 && rest[0] == '/' {
        return sub_chars(rest, 0, rest.len());
    }
    let mut out = chars_of(home);
    if out.len() > 0 && out[out.len() - 1] != '/' {
        out.push('/');
    }
    let ghost base = out@;
    append(&mut out, rest);
    proof {
        reveal_strlit("/");
        if !(home@.len() == 0 || home@.last() == '/') {
            assert(base =~= home@ + "/"@);
        }
    }
    out
}

fn path_candidate(q: &[char], home: Option<&str>) -> (r: Option<Vec<char>>)
    ensures
        match r {
            Some(v) => path_of(q@, opt_str_view(home)) == Some(v@),
            None => path_of(q@, opt_str_view(home)) is None,
        },
{
    if chars_eq(q, &chars_of("~")) {
        return match home {
            Some(h) => Some(chars_of(h)),
            None => None,
        };
    }
    proof {
        reveal_strlit("~/");
    }
    if starts_with_exec(q, &chars_of("~/")) {
        return match home {
            Some(h) => Some(join_path_exec(h, &sub_chars(q, 2, q.len()))),
            None => None,
        };
    }
    if q.len() > 0 && q[0] == '/' {
        return Some(sub_chars(q, 0, q.len()));
    }
    None
}

pub open spec fn opt_str_view(o: Option<&str>) -> Option<Seq<char>> {
    match o {
        Some(s) => Some(s@),
        None => None,
    }
}

/// Classify `query` without looking at the disk: a `> command`, a
/// quicklink, a URL, or a path that is a target if it exists.
pub fn classify(query: &str, quicklinks: &[Quicklink], home: Option<&str>) -> (r: Resolution)
    ensures
        r@ == classified(query@, quicklinks@, opt_str_view(home)),
{
    let q = trim_chars(&chars_of(query));
    if q.len() == 0 {
        return Resolution::Nothing;
    }
    if q[0] == '>' {
        let c = trim_chars(&sub_chars(&q, 1, q.len()));
        if c.len() == 0 {
            return Resolution::Nothing;
        }
        return Resolution::Found(Target::Command(string_of(&c)));
    }
    match quicklink(&q, quicklinks) {
        Some(t) => return Resolution::Found(t),
        None => {},
    }
    match url(&q) {
        Some(u) => return Resolution::Found(Target::Url(string_of(&u))),
        None => {},
    }
    match path_candidate(&q, home) {
        Some(p) => Resolution::Candidate(string_of(&p)),
        None => Resolution::Nothing,
    }
}

/// Whether something exists at `path` (`std::path::Path::exists`). Nothing
/// is claimed of the answer: it depends on the file system.
#[verifier::external_body]
fn path_exists(path: &str) -> bool {
    std::path::Path::new(path).exists()
}

/// Resolve `query` to a direct target, if it is one: a path only when it
/// exists on disk.
pub fn resolve(query: &str, quicklinks: &[Quicklink], home: Option<&str>) -> (r: Option<Target>)
    ensures
        match classified(query@, quicklinks@, opt_str_view(home)) {
            ResolutionView::Found(t) => r matches Some(x) && x@ == t,
            ResolutionView::Candidate(p) => r is None || (r matches Some(x) && x@
                == TargetView::Path(p)),
            ResolutionView::Nothing => r is None,
        },
{
    match classify(query, quicklinks, home) {
        Resolution::Found(t) => Some(t),
        Resolution::Candidate(p) => if path_exists(p.as_str()) {
            Some(Target::Path(p))
        } else {
            None
        },
        Resolution::Nothing => None,
    }
}

} // verus!
