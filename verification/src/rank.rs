//! Ranking: how well a text matches a query, and how much launch history
//! boosts a result. Positions and lengths are counted in UTF-8 bytes, as the
//! launcher always has; scores are 64-bit and wrap like release builds do.

use crate::db::UsageStats;
use crate::desktop::{search_text_of, DesktopEntry};
use crate::text::{char_is_white, chars_of, is_white, lowercase, starts_with, to_lower};
use vstd::prelude::*;

verus! {

/// UTF-8 width of a character.
pub open spec fn char_len(c: char) -> int {
    if (c as u32) < 0x80 {
        1
    } else if (c as u32) < 0x800 {
        2
    } else if (c as u32) < 0x10000 {
        3
    } else {
        4
    }
}

/// UTF-8 byte length of a string.
pub open spec fn utf8_len(s: Seq<char>) -> int
    decreases s.len(),
{
    if s.len() == 0 {
        0
    } else {
        utf8_len(s.drop_last()) + char_len(s.last())
    }
}

/// First position at or after `i` where `q` occurs in `t`.
pub open spec fn find_from(t: Seq<char>, q: Seq<char>, i: int) -> Option<int>
    decreases t.len() - i,
{
    if i < 0 || i >= t.len() || i + q.len() > t.len() {
        None
    } else if t.subrange(i, i + q.len()) == q {
        Some(i)
    } else {
        find_from(t, q, i + 1)
    }
}

/// First position at or after `i` where `q` occurs at the start of a word
/// of `t` (at the very start, or after whitespace).
pub open spec fn word_find_from(t: Seq<char>, q: Seq<char>, i: int) -> Option<int>
    decreases t.len() - i,
{
    if i < 0 || i >= t.len() || i + q.len() > t.len() {
        None
    } else if t.subrange(i, i + q.len()) == q && (i == 0 || is_white(t[i - 1])) {
        Some(i)
    } else {
        word_find_from(t, q, i + 1)
    }
}

/// First position at or after `i` holding `c`.
pub open spec fn char_from(t: Seq<char>, c: char, i: int) -> Option<int>
    decreases t.len() - i,
{
    if i < 0 || i >= t.len() {
        None
    } else if t[i] == c {
        Some(i)
    } else {
        char_from(t, c, i + 1)
    }
}

/// Fuzzy match of the query characters from `qi` on, in order, each found at
/// or after position `start`: 80 points per character, 40 more when it
/// directly follows the previous one (byte-adjacent), minus the byte gap
/// otherwise (minus the byte position for the first one).
pub open spec fn fuzzy_from(
    name: Seq<char>,
    query: Seq<char>,
    qi: int,
    start: int,
    score: int,
    last: Option<int>,
) -> Option<int>
    decreases query.len() - qi,
{
    if qi < 0 || qi >= query.len() {
        Some(score - utf8_len(name))
    } else {
        match char_from(name, query[qi], start) {
            None => None,
            Some(ci) => {
                let idx = utf8_len(name.subrange(0, ci));
                let step = match last {
                    Some(p) => if idx == p + 1 {
                        40
                    } else {
                        -(idx - p)
                    },
                    None => -idx,
                };
                fuzzy_from(name, query, qi + 1, ci + 1, score + 80 + step, Some(idx))
            },
        }
    }
}

/// How well lowercased text `t` matches `query`, before 64-bit wrapping.
pub open spec fn text_points(t: Seq<char>, query: Seq<char>) -> Option<int> {
    if query.len() == 0 {
        Some(1000)
    } else if t == query {
        Some(10000)
    } else if starts_with(t, query) {
        Some(8000 - utf8_len(t))
    } else {
        match word_find_from(t, query, 0) {
            Some(i) => Some(6000 - utf8_len(t.subrange(0, i)) - utf8_len(t)),
            None => match fuzzy_from(t, query, 0, 0, 0, None) {
                Some(s) => Some(3000 + s),
                None => None,
            },
        }
    }
}

/// The score [`match_score`] gives `text` for the (normalized) `query`:
/// exact 10000, prefix 8000, an occurrence at the start of a later word 6000,
/// fuzzy 3000, each less the text length (and the match position). A query
/// found only inside a word ("ter" in "center") counts as a fuzzy match.
pub open spec fn match_points(text: Seq<char>, query: Seq<char>) -> Option<i64> {
    match text_points(lowercase(text), query) {
        Some(s) => Some(s as i64),
        None => None,
    }
}

pub open spec fn opt_max(a: Option<i64>, b: Option<i64>) -> Option<i64> {
    match (a, b) {
        (None, x) => x,
        (x, None) => x,
        (Some(x), Some(y)) => Some(
            if x >= y {
                x
            } else {
                y
            },
        ),
    }
}

/// The score of an app: the better of its name match and its metadata match
/// (generic name, comment, keywords) at a 2500-point discount.
pub open spec fn app_points(app: DesktopEntry, query: Seq<char>) -> Option<i64> {
    opt_max(
        match_points(app.name@, query),
        match match_points(search_text_of(app), query) {
            Some(s) => Some((s - 2500) as i64),
            None => None,
        },
    )
}

fn char_len_exec(c: char) -> (r: u128)
    ensures
        r == char_len(c),
{
    let u = c as u32;
    if u < 0x80 {
        1
    } else if u < 0x800 {
        2
    } else if u < 0x10000 {
        3
    } else {
        4
    }
}

proof fn lemma_utf8_len_step(s: Seq<char>, i: int)
    requires
        0 <= i < s.len(),
    ensures
        utf8_len(s.subrange(0, i + 1)) == utf8_len(s.subrange(0, i)) + char_len(s[i]),
{
    assert(s.subrange(0, i + 1).drop_last() =~= s.subrange(0, i));
}

proof fn lemma_utf8_len_bounds(s: Seq<char>)
    ensures
        s.len() <= utf8_len(s) <= 4 * s.len(),
    decreases s.len(),
{
    if s.len() > 0 {
        lemma_utf8_len_bounds(s.drop_last());
    }
}

/// UTF-8 length of `s[..n]`.
pub(crate) fn utf8_prefix_len(s: &[char], n: usize) -> (r: u128)
    requires
        n <= s@.len(),
    ensures
        r == utf8_len(s@.subrange(0, n as int)),
        r <= 4 * n,
{
    let mut acc: u128 = 0;
    let mut i: usize = 0;
    assert(s@.subrange(0, 0) =~= seq![]);
    while i < n
        invariant
            i <= n <= s@.len(),
            acc == utf8_len(s@.subrange(0, i as int)),
            acc <= 4 * i,
        decreases n - i,
    {
        proof {
            lemma_utf8_len_step(s@, i as int);
        }
        acc = acc + char_len_exec(s[i]);
        i = i + 1;
    }
    acc
}

fn sub_at(t: &[char], q: &[char], i: usize) -> (r: bool)
    requires
        i + q@.len() <= t@.len(),
    ensures
        r == (t@.subrange(i as int, i + q@.len()) == q@),
{
    let mut k: usize = 0;
    let tl = t.len();
    while k < q.len()
        invariant
            tl == t@.len(),
            i + q@.len() <= t@.len(),
            k <= q@.len(),
            forall|j: int| 0 <= j < k ==> t@[i + j] == q@[j],
        decreases q@.len() - k,
    {
        if t[i + k] != q[k] {
            assert(t@.subrange(i as int, i + q@.len())[k as int] != q@[k as int]);
            return false;
        }
        k = k + 1;
    }
    assert(t@.subrange(i as int, i + q@.len()) =~= q@);
    true
}

fn word_find_exec(t: &[char], q: &[char]) -> (r: Option<usize>)
    ensures
        match r {
            Some(i) => word_find_from(t@, q@, 0) == Some(i as int) && i <= t@.len(),
            None => word_find_from(t@, q@, 0) is None,
        },
{
    let tl = t.len();
    let ql = q.len();
    let mut i: usize = 0;
    while i < tl
        invariant
            tl == t@.len(),
            ql == q@.len(),
            i <= tl,
            word_find_from(t@, q@, 0) == word_find_from(t@, q@, i as int),
        decreases tl - i,
    {
        if ql > tl - i {
            return None;
        }
        if (i == 0 || char_is_white(t[i - 1])) && sub_at(t, q, i) {
            return Some(i);
        }
        i = i + 1;
    }
    None
}

/// `q` occurs in `t`, as `str::contains` says: the empty text occurs in
/// every text.
pub open spec fn occurs_in(t: Seq<char>, q: Seq<char>) -> bool {
    q.len() == 0 || find_from(t, q, 0) is Some
}

/// Whether `q` occurs in `t`.
pub fn occurs(t: &[char], q: &[char]) -> (r: bool)
    ensures
        r == occurs_in(t@, q@),
{
    q.len() == 0 || find_after(t, q, 0).is_some()
}


/// First position at or after `start` where `q` occurs in `t`.
pub(crate) fn find_after(t: &[char], q: &[char], start: usize) -> (r: Option<usize>)
    ensures
        match r {
            Some(i) => find_from(t@, q@, start as int) == Some(i as int) && start <= i && i
                + q@.len() <= t@.len(),
            None => find_from(t@, q@, start as int) is None,
        },
{
    let tl = t.len();
    let ql = q.len();
    let mut i: usize = start;
    while i < tl
        invariant
            tl == t@.len(),
            ql == q@.len(),
            start <= i,
            find_from(t@, q@, start as int) == find_from(t@, q@, i as int),
        decreases tl - i,
    {
        if ql > tl - i {
            return None;
        }
        if sub_at(t, q, i) {
            return Some(i);
        }
        i = i + 1;
    }
    None
}

fn char_from_exec(t: &[char], c: char, start: usize) -> (r: Option<usize>)
    requires
        start <= t@.len(),
    ensures
        match r {
            Some(i) => char_from(t@, c, start as int) == Some(i as int) && start <= i < t@.len(),
            None => char_from(t@, c, start as int) is None,
        },
{
    let mut i = start;
    while i < t.len()
        invariant
            start <= i <= t@.len(),
            char_from(t@, c, start as int) == char_from(t@, c, i as int),
        decreases t@.len() - i,
    {
        if t[i] == c {
            return Some(i);
        }
        i = i + 1;
    }
    None
}

fn fuzzy_exec(name: &[char], query: &[char]) -> (r: Option<i128>)
    ensures
        match r {
            Some(s) => fuzzy_from(name@, query@, 0, 0, 0, None) == Some(s as int) && -8
                * name@.len() <= s <= 121 * query@.len(),
            None => fuzzy_from(name@, query@, 0, 0, 0, None) is None,
        },
{
    let nl = name.len();
    let ql = query.len();
    let mut score: i128 = 0;
    let mut last: Option<u128> = None;
    let mut start: usize = 0;
    let mut qi: usize = 0;
    let ghost mut cons: int = 0;
    proof {
        lemma_utf8_len_bounds(name@);
    }
    while qi < ql
        invariant
            nl == name@.len(),
            ql == query@.len(),
            qi <= ql,
            start <= nl,
            fuzzy_from(name@, query@, 0, 0, 0, None) == fuzzy_from(
                name@,
                query@,
                qi as int,
                start as int,
                score as int,
                match last {
                    Some(p) => Some(p as int),
                    None => None,
                },
            ),
            0 <= cons <= qi,
            match last {
                Some(p) => p <= 4 * nl && score + p == 80 * qi + 41 * cons && qi > 0,
                None => score == 0 && qi == 0,
            },
            utf8_len(name@) <= 4 * nl,
        decreases ql - qi,
    {
        let ci = match char_from_exec(name, query[qi], start) {
            Some(ci) => ci,
            None => return None,
        };
        let idx = utf8_prefix_len(name, ci);
        let step: i128 = match last {
            Some(p) => {
                if idx == p + 1 {
                    proof {
                        cons = cons + 1;
                    }
                    40
                } else if idx >= p {
                    -((idx - p) as i128)
                } else {
                    (p - idx) as i128
                }
            },
            None => -(idx as i128),
        };
        score = score + 80 + step;
        last = Some(idx);
        start = ci + 1;
        qi = qi + 1;
    }
    let total = utf8_prefix_len(name, nl);
    assert(name@.subrange(0, nl as int) =~= name@);
    Some(score - total as i128)
}

/// How well `text` matches the (already normalized) `query`: `None` when
/// the query's characters do not all occur in order.
pub fn match_score(text: &str, query: &str) -> (r: Option<i64>)
    ensures
        r == match_points(text@, query@),
{
    let q = chars_of(query);
    if q.len() == 0 {
        return Some(1000);
    }
    let t = chars_of(to_lower(text).as_str());
    let tl = t.len();
    let total = utf8_prefix_len(&t, tl);
    assert(t@.subrange(0, tl as int) =~= t@);
    if crate::text::chars_eq(&t, &q) {
        return Some(10000);
    }
    if crate::text::starts_with_exec(&t, &q) {
        return Some((8000 - total as i128) as i64);
    }
    match word_find_exec(&t, &q) {
        Some(i) => {
            let before = utf8_prefix_len(&t, i);
            Some((6000 - before as i128 - total as i128) as i64)
        },
        None => match fuzzy_exec(&t, &q) {
            Some(s) => Some((3000 + s) as i64),
            None => None,
        },
    }
}


/// Score how well an app matches the (already normalized) query: a strong
/// name match, or a weaker one over generic name, comment and keywords.
pub fn app_match_score(app: &DesktopEntry, query: &str) -> (r: Option<i64>)
    ensures
        r == app_points(*app, query@),
{
    let name_score = match_score(app.name.as_str(), query);
    let text = app.search_text();
    let metadata_score = match match_score(text.as_str(), query) {
        Some(s) => Some((s as i128 - 2500) as i64),
        None => None,
    };
    match (name_score, metadata_score) {
        (None, x) => x,
        (x, None) => x,
        (Some(x), Some(y)) => Some(
            if x >= y {
                x
            } else {
                y
            },
        ),
    }
}

/// Bonus for how recently something was used, at time `now`: 120 within a
/// day, 60 within a week, 25 within 30 days, 5 beyond; 0 if never used.
pub open spec fn recency_points(last_used: int, now: int) -> int {
    if last_used <= 0 {
        0
    } else {
        let age = if now - last_used > 0 {
            now - last_used
        } else {
            0
        };
        let hours = age / 3600;
        if hours <= 24 {
            120
        } else if hours <= 168 {
            60
        } else if hours <= 720 {
            25
        } else {
            5
        }
    }
}

pub open spec fn min50(x: int) -> int {
    if x < 50 {
        x
    } else {
        50
    }
}

/// The usage bonus at time `now`: launches for this query weigh 220 each
/// (up to 50), global launches 45 each (up to 50), plus recency bonuses, the
/// global one at a quarter.
pub open spec fn usage_points(stats: UsageStats, now: int) -> i64 {
    (min50(stats.query_count as int) * 220 + recency_points(stats.query_last_used as int, now)
        + min50(stats.global_count as int) * 45 + recency_points(stats.global_last_used as int, now)
        / 4) as i64
}

/// Recency bonus of a timestamp at time `now`.
pub fn recency_bonus_at(last_used: i64, now: i64) -> (r: i64)
    ensures
        r == recency_points(last_used as int, now as int),
{
    if last_used <= 0 {
        return 0;
    }
    let diff: i128 = now as i128 - last_used as i128;
    let age: i128 = if diff > 0 {
        diff
    } else {
        0
    };
    let hours = age / 3600;
    if hours <= 24 {
        120
    } else if hours <= 168 {
        60
    } else if hours <= 720 {
        25
    } else {
        5
    }
}

/// Usage bonus of `stats` at time `now`.
pub fn usage_score_at(stats: &UsageStats, now: i64) -> (r: i64)
    ensures
        r == usage_points(*stats, now as int),
{
    let qc: i128 = if stats.query_count < 50 {
        stats.query_count as i128
    } else {
        50
    };
    let gc: i128 = if stats.global_count < 50 {
        stats.global_count as i128
    } else {
        50
    };
    let qr = recency_bonus_at(stats.query_last_used, now) as i128;
    let gr = recency_bonus_at(stats.global_last_used, now) as i128;
    (qc * 220 + qr + gc * 45 + gr / 4) as i64
}

/// Current Unix time in seconds (`SystemTime::now` since the epoch; 0 if the
/// clock is before it). Nothing is claimed of the value: it is the clock.
#[verifier::external_body]
pub(crate) fn unix_now() -> (r: i64) {
    std::time::SystemTime::now().duration_since(std::time::UNIX_EPOCH).map(
        |d| d.as_secs() as i64,
    ).unwrap_or_default()
}

/// Bonus applied to a base match score based on how often and how recently
/// the result was launched, for this exact query and globally, at the
/// current time.
pub fn usage_score(stats: &UsageStats) -> (r: i64)
    ensures
        exists|now: i64| r == usage_points(*stats, now as int),
{
    let now = unix_now();
    usage_score_at(stats, now)
}

proof fn lemma_utf8_prefix_grows(s: Seq<char>, i: int, j: int)
    requires
        0 <= i <= j <= s.len(),
    ensures
        utf8_len(s.subrange(0, i)) + (j - i) <= utf8_len(s.subrange(0, j)),
    decreases j - i,
{
    if i < j {
        lemma_utf8_prefix_grows(s, i, j - 1);
        lemma_utf8_len_step(s, j - 1);
    }
}

proof fn lemma_char_from_found(t: Seq<char>, c: char, i: int)
    ensures
        char_from(t, c, i) matches Some(ci) ==> i <= ci < t.len() && t[ci] == c,
    decreases t.len() - i,
{
    if 0 <= i < t.len() && t[i] != c {
        lemma_char_from_found(t, c, i + 1);
    }
}

proof fn lemma_word_find_bounds(t: Seq<char>, q: Seq<char>, i: int)
    ensures
        word_find_from(t, q, i) matches Some(k) ==> i <= k < t.len() && 0 <= k,
    decreases t.len() - i,
{
    if !(i < 0 || i >= t.len() || i + q.len() > t.len()) && !(t.subrange(i, i + q.len()) == q && (i
        == 0 || is_white(t[i - 1]))) {
        lemma_word_find_bounds(t, q, i + 1);
    }
}

/// Bounds on a fuzzy match from query position `qi` and text position
/// `start`: the rest of the query fits in the rest of the text (and is the
/// rest of the text when it just fits), and each matched character adds at
/// most 120 points (80 for the first one) and at least minus the text's byte
/// length.
proof fn lemma_fuzzy_bounds(
    name: Seq<char>,
    query: Seq<char>,
    qi: int,
    start: int,
    score: int,
    last: Option<int>,
)
    requires
        0 <= qi <= query.len(),
        0 <= start <= name.len(),
        last matches Some(p) ==> 0 <= p && p + 1 <= utf8_len(name.subrange(0, start)),
        last is None ==> qi == 0 && start == 0,
    ensures
        fuzzy_from(name, query, qi, start, score, last) matches Some(s) ==> {
            &&& query.len() - qi <= name.len() - start
            &&& s <= score + 120 * (query.len() - qi) - (if last is None && qi < query.len() {
                40int
            } else {
                0int
            }) - utf8_len(name)
            &&& s >= score - (query.len() - qi) * utf8_len(name) - utf8_len(name)
            &&& query.len() - qi == name.len() - start ==> query.subrange(qi, query.len() as int)
                == name.subrange(start, name.len() as int)
        },
    decreases query.len() - qi,
{
    if qi < query.len() {
        lemma_char_from_found(name, query[qi], start);
        if let Some(ci) = char_from(name, query[qi], start) {
            let idx = utf8_len(name.subrange(0, ci));
            lemma_utf8_prefix_grows(name, start, ci);
            lemma_utf8_prefix_grows(name, ci, name.len() as int);
            assert(name.subrange(0, name.len() as int) =~= name);
            lemma_utf8_len_step(name, ci);
            let step = match last {
                Some(p) => if idx == p + 1 {
                    40
                } else {
                    -(idx - p)
                },
                None => -idx,
            };
            lemma_fuzzy_bounds(name, query, qi + 1, ci + 1, score + 80 + step, Some(idx));
            if let Some(s) = fuzzy_from(name, query, qi, start, score, last) {
                assert(fuzzy_from(name, query, qi + 1, ci + 1, score + 80 + step, Some(idx)) == Some(s));
                let u = utf8_len(name);
                assert(s >= score + 80 + step - (query.len() - qi - 1) * u - u);
                assert((query.len() - qi - 1) * u + u == (query.len() - qi) * u) by (nonlinear_arith);
                if query.len() - qi == name.len() - start {
                    assert(ci == start);
                    assert(query.subrange(qi, query.len() as int) =~= seq![query[qi]] + query.subrange(
                        qi + 1,
                        query.len() as int,
                    ));
                    assert(name.subrange(start, name.len() as int) =~= seq![name[start]] + name.subrange(
                        start + 1,
                        name.len() as int,
                    ));
                }
            }
        }
    } else {
        assert(query.subrange(qi, query.len() as int) =~= Seq::<char>::empty());
    }
}

/// An exact match scores highest. The lowercased text itself scores 10000
/// and an empty query 1000; on a text of at most 60 characters, every other
/// query that matches scores less than 10000.
pub proof fn lemma_exact_match_scores_highest(text: Seq<char>, query: Seq<char>)
    requires
        0 < lowercase(text).len() <= 60,
    ensures
        match_points(text, lowercase(text)) == Some(10000i64),
        match_points(text, Seq::<char>::empty()) == Some(1000i64),
        query != lowercase(text) ==> match match_points(text, query) {
            Some(s) => s < 10000,
            None => true,
        },
{
    let t = lowercase(text);
    lemma_utf8_len_bounds(t);
    let u = utf8_len(t);
    if query != t && query.len() > 0 && !starts_with(t, query) {
        match word_find_from(t, query, 0) {
            Some(i) => {
                lemma_word_find_bounds(t, query, 0);
                lemma_utf8_prefix_grows(t, i, t.len() as int);
                assert(t.subrange(0, t.len() as int) =~= t);
                lemma_utf8_len_bounds(t.subrange(0, i));
            },
            None => {
                lemma_fuzzy_bounds(t, query, 0, 0, 0, None);
                if let Some(s) = fuzzy_from(t, query, 0, 0, 0, None) {
                    assert(t.subrange(0, t.len() as int) =~= t);
                    assert(query.subrange(0, query.len() as int) =~= query);
                    assert(query.len() < t.len());
                    assert(s <= 120 * query.len() - 40 - u);
                    assert(query.len() * u <= 60 * 240) by (nonlinear_arith)
                        requires
                            query.len() <= 60,
                            u <= 240,
                            0 <= u,
                    ;
                }
            },
        }
    }
}

proof fn lemma_recency_points_range(last_used: int, now: int)
    ensures
        0 <= recency_points(last_used, now) <= 120,
        last_used <= 0 ==> recency_points(last_used, now) == 0,
{
}

/// The usage bonus is bounded: with no negative counts it lies between 0
/// and 13400 (50 launches for the query at 220, 50 globally at 45, and the
/// two recency bonuses at most 120 and 30); with no recorded launch time it
/// is the capped counts alone, so empty stats give 0.
pub proof fn lemma_usage_points_bounds(stats: UsageStats, now: int)
    requires
        stats.query_count >= 0,
        stats.global_count >= 0,
    ensures
        0 <= usage_points(stats, now) <= 13400,
        stats.query_last_used <= 0 && stats.global_last_used <= 0 ==> usage_points(stats, now) == 220
            * min50(stats.query_count as int) + 45 * min50(stats.global_count as int),
        stats.query_count == 0 && stats.global_count == 0 && stats.query_last_used == 0
            && stats.global_last_used == 0 ==> usage_points(stats, now) == 0,
{
    lemma_recency_points_range(stats.query_last_used as int, now);
    lemma_recency_points_range(stats.global_last_used as int, now);
}

/// More launches never lower the usage bonus, and launches beyond 50 no
/// longer raise it: `more` differs from `stats` only in counts at least as
/// large.
pub proof fn lemma_usage_points_monotone(stats: UsageStats, more: UsageStats, now: int)
    requires
        0 <= stats.query_count <= more.query_count,
        0 <= stats.global_count <= more.global_count,
        more.query_last_used == stats.query_last_used,
        more.global_last_used == stats.global_last_used,
    ensures
        usage_points(stats, now) <= usage_points(more, now),
        stats.query_count >= 50 && more.global_count == stats.global_count ==> usage_points(more, now)
            == usage_points(stats, now),
        stats.global_count >= 50 && more.query_count == stats.query_count ==> usage_points(more, now)
            == usage_points(stats, now),
{
    lemma_usage_points_bounds(stats, now);
    lemma_usage_points_bounds(more, now);
}

} // verus!
