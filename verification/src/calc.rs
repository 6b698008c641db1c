//! A tiny arithmetic evaluator for inline calculator results.
//!
//! Supports `+ - * / % ^`, parentheses, unary sign, decimal numbers with a
//! point or a (German) comma, the symbols `× · ÷`, and a trailing `=`. It is
//! deliberately conservative: anything that does not look like an arithmetic
//! expression gives `None`, so it never competes with normal app search.
//! Arithmetic is exact over rationals with 128-bit parts.

use crate::num::{
    decimal_value, fits, first_dot, format_rat, lemma_rat_ops_values, pair_wf, render, minus, modulo, negate, over,
    parse_decimal, plus, raise, rat_add, rat_div, rat_mul, rat_neg, rat_pow, rat_rem, rat_sub,
    times, Rat,
};
use crate::text::{
    chars_of, contains_char, is_ascii_digit, string_of, sub_chars, trim, trim_chars, trim_end,
    trim_end_index,
};
use vstd::prelude::*;

verus! {

/// A parse state: the value read so far, the position after it, and how many
/// binary operators and parentheses were consumed.
pub type Parsed = ((int, int), int, nat);

pub open spec fn is_blank(c: char) -> bool {
    c == ' ' || c == '\t'
}

/// Position of the first non-blank character at or after `p`.
pub open spec fn skip_ws(s: Seq<char>, p: int) -> int
    decreases s.len() - p,
{
    if 0 <= p < s.len() && is_blank(s[p]) {
        skip_ws(s, p + 1)
    } else {
        p
    }
}

/// End of the run of digits and points starting at `p`.
pub open spec fn run_end(s: Seq<char>, p: int) -> int
    decreases s.len() - p,
{
    if 0 <= p < s.len() && ('0' <= s[p] <= '9' || s[p] == '.') {
        run_end(s, p + 1)
    } else {
        p
    }
}

/// `p <= q <= len`: a sub-parser never moves backwards or past the end.
pub open spec fn ahead(s: Seq<char>, p: int, q: int) -> bool {
    p <= q <= s.len()
}

/// `p < q <= len`: a sub-parser consumed something.
pub open spec fn advanced(s: Seq<char>, p: int, q: int) -> bool {
    p < q <= s.len()
}

/// A number literal after optional blanks.
pub open spec fn p_number(s: Seq<char>, p: int) -> Option<((int, int), int)> {
    let q = skip_ws(s, p);
    let e = run_end(s, q);
    if !ahead(s, p, q) || !ahead(s, q, e) || e == q {
        None
    } else {
        match decimal_value(s.subrange(q, e)) {
            Some(v) => Some((v, e)),
            None => None,
        }
    }
}

/// `expr := term (('+' | '-') term)*`
pub open spec fn p_expr(s: Seq<char>, p: int, o: nat) -> Option<Parsed>
    decreases s.len() - p, 7int,
{
    match p_term(s, p, o) {
        None => None,
        Some((v, q, o1)) => if !advanced(s, p, q) {
            None
        } else {
            p_expr_rest(s, v, q, o1)
        },
    }
}

pub open spec fn p_expr_rest(s: Seq<char>, v: (int, int), p: int, o: nat) -> Option<Parsed>
    decreases s.len() - p, 8int,
{
    let q = skip_ws(s, p);
    if !ahead(s, p, q) {
        None
    } else if q < s.len() && (s[q] == '+' || s[q] == '-') {
        match p_term(s, q + 1, o + 1) {
            None => None,
            Some((rhs, q2, o2)) => if !advanced(s, q + 1, q2) {
                None
            } else {
                match (if s[q] == '+' {
                    rat_add(v, rhs)
                } else {
                    rat_sub(v, rhs)
                }) {
                    None => None,
                    Some(nv) => p_expr_rest(s, nv, q2, o2),
                }
            },
        }
    } else {
        Some((v, q, o))
    }
}

/// `term := unary (('*' | '/' | '%') unary)*`
pub open spec fn p_term(s: Seq<char>, p: int, o: nat) -> Option<Parsed>
    decreases s.len() - p, 5int,
{
    match p_unary(s, p, o) {
        None => None,
        Some((v, q, o1)) => if !advanced(s, p, q) {
            None
        } else {
            p_term_rest(s, v, q, o1)
        },
    }
}

pub open spec fn p_term_rest(s: Seq<char>, v: (int, int), p: int, o: nat) -> Option<Parsed>
    decreases s.len() - p, 6int,
{
    let q = skip_ws(s, p);
    if !ahead(s, p, q) {
        None
    } else if q < s.len() && (s[q] == '*' || s[q] == '/' || s[q] == '%') {
        match p_unary(s, q + 1, o + 1) {
            None => None,
            Some((rhs, q2, o2)) => if !advanced(s, q + 1, q2) {
                None
            } else {
                match (if s[q] == '*' {
                    rat_mul(v, rhs)
                } else if s[q] == '/' {
                    rat_div(v, rhs)
                } else {
                    rat_rem(v, rhs)
                }) {
                    None => None,
                    Some(nv) => p_term_rest(s, nv, q2, o2),
                }
            },
        }
    } else {
        Some((v, q, o))
    }
}

/// `unary := '-' unary | '+' unary | power`; the sign binds looser than `^`.
pub open spec fn p_unary(s: Seq<char>, p: int, o: nat) -> Option<Parsed>
    decreases s.len() - p, 4int,
{
    let q = skip_ws(s, p);
    if !ahead(s, p, q) || q >= s.len() {
        None
    } else if s[q] == '-' {
        match p_unary(s, q + 1, o) {
            None => None,
            Some((v, q2, o2)) => Some((rat_neg(v), q2, o2)),
        }
    } else if s[q] == '+' {
        p_unary(s, q + 1, o)
    } else {
        p_power(s, q, o)
    }
}

/// `power := factor ('^' unary)?`, right-associative.
pub open spec fn p_power(s: Seq<char>, p: int, o: nat) -> Option<Parsed>
    decreases s.len() - p, 3int,
{
    match p_factor(s, p, o) {
        None => None,
        Some((base, q, o1)) => if !advanced(s, p, q) {
            None
        } else {
            let q1 = skip_ws(s, q);
            if !ahead(s, q, q1) {
                None
            } else if q1 < s.len() && s[q1] == '^' {
                match p_unary(s, q1 + 1, o1 + 1) {
                    None => None,
                    Some((e, q2, o2)) => match rat_pow(base, e) {
                        None => None,
                        Some(v) => Some((v, q2, o2)),
                    },
                }
            } else {
                Some((base, q1, o1))
            }
        },
    }
}

/// `factor := '(' expr ')' | number`
pub open spec fn p_factor(s: Seq<char>, p: int, o: nat) -> Option<Parsed>
    decreases s.len() - p, 2int,
{
    let q = skip_ws(s, p);
    if !ahead(s, p, q) || q >= s.len() {
        None
    } else if s[q] == '(' {
        match p_expr(s, q + 1, o + 1) {
            None => None,
            Some((v, q2, o2)) => {
                let q3 = skip_ws(s, q2);
                if !ahead(s, q2, q3) || q3 >= s.len() || s[q3] != ')' {
                    None
                } else {
                    Some((v, q3 + 1, o2))
                }
            },
        }
    } else {
        match p_number(s, q) {
            None => None,
            Some((v, e)) => Some((v, e, o)),
        }
    }
}

/// The value of a whole normalized expression: everything consumed and at
/// least one operator or parenthesis, so a lone number is no calculation.
pub open spec fn parse_all(s: Seq<char>) -> Option<(int, int)> {
    match p_expr(s, 0, 0) {
        None => None,
        Some((v, q, o)) => if skip_ws(s, q) == s.len() && o > 0 {
            Some(v)
        } else {
            None
        },
    }
}

/// How a character of the query is read: the symbols `× ·` are `*`, `÷` is
/// `/`, a comma is a decimal point; digits, operators, parentheses, points
/// and blanks stand for themselves; anything else is no expression.
pub open spec fn normalize_char(c: char) -> Option<char> {
    if c == '×' || c == '·' {
        Some('*')
    } else if c == '÷' {
        Some('/')
    } else if c == ',' {
        Some('.')
    } else if ('0' <= c <= '9') || c == '+' || c == '-' || c == '*' || c == '/' || c == '%'
        || c == '^' || c == '(' || c == ')' || c == '.' || c == ' ' || c == '\t' {
        Some(c)
    } else {
        None
    }
}

pub open spec fn normalizes(t: Seq<char>) -> bool {
    forall|i: int| 0 <= i < t.len() ==> (#[trigger] normalize_char(t[i])) is Some
}

pub open spec fn normalized(t: Seq<char>) -> Seq<char> {
    t.map_values(|c: char| normalize_char(c)->0)
}

/// The query after trimming, dropping one trailing `=`, and trimming again.
pub open spec fn calc_text(input: Seq<char>) -> Seq<char> {
    let t = trim(input);
    if t.len() > 0 && t.last() == '=' {
        trim_end(t.drop_last())
    } else {
        trim_end(t)
    }
}

/// `s` with every point replaced by a comma.
pub open spec fn dot_to_comma(s: Seq<char>) -> Seq<char> {
    s.map_values(|c: char|
        if c == '.' {
            ','
        } else {
            c
        })
}

/// What [`evaluate`] answers for `input`.
pub open spec fn calc_result(input: Seq<char>) -> Option<Seq<char>> {
    let t = calc_text(input);
    let comma = t.contains(',');
    if t.len() == 0 || !(exists|i: int| 0 <= i < t.len() && is_ascii_digit(#[trigger] t[i])) || (
    comma && t.contains('.')) || !normalizes(t) {
        None
    } else {
        match parse_all(normalized(t)) {
            None => None,
            Some(v) => Some(
                if comma {
                    dot_to_comma(format_rat(v))
                } else {
                    format_rat(v)
                },
            ),
        }
    }
}

// ----------------------------------------------------------------------------
// The parser
// ----------------------------------------------------------------------------

fn skip_ws_exec(s: &[char], p: usize) -> (q: usize)
    requires
        p <= s@.len(),
    ensures
        q == skip_ws(s@, p as int),
        p <= q <= s@.len(),
{
    let mut q = p;
    while q < s.len() && (s[q] == ' ' || s[q] == '\t')
        invariant
            p <= q <= s@.len(),
            skip_ws(s@, p as int) == skip_ws(s@, q as int),
        decreases s@.len() - q,
    {
        q = q + 1;
    }
    q
}

fn number(s: &[char], p: usize) -> (r: Option<(Rat, usize)>)
    requires
        p <= s@.len(),
    ensures
        match r {
            Some((v, e)) => v.wf() && p_number(s@, p as int) == Some((v.pair(), e as int)) && p
                < e <= s@.len(),
            None => p_number(s@, p as int) is None,
        },
{
    let q = skip_ws_exec(s, p);
    let mut e = q;
    while e < s.len() && (('0' <= s[e] && s[e] <= '9') || s[e] == '.')
        invariant
            q <= e <= s@.len(),
            run_end(s@, q as int) == run_end(s@, e as int),
            forall|i: int| q <= i < e ==> ('0' <= #[trigger] s@[i] <= '9' || s@[i] == '.'),
        decreases s@.len() - e,
    {
        e = e + 1;
    }
    if e == q {
        return None;
    }
    match parse_decimal(s, q, e) {
        Some(v) => Some((v, e)),
        None => None,
    }
}

fn expr(s: &[char], p: usize, o: usize) -> (r: Option<(Rat, usize, usize)>)
    requires
        p <= s@.len(),
        o <= p,
    ensures
        match r {
            Some((v, q, o2)) => v.wf() && p_expr(s@, p as int, o as nat) == Some(
                (v.pair(), q as int, o2 as nat),
            ) && p < q <= s@.len() && o2 <= q,
            None => p_expr(s@, p as int, o as nat) is None,
        },
    decreases s@.len() - p, 7int,
{
    let (v, q, o1) = match term(s, p, o) {
        Some(t) => t,
        None => return None,
    };
    expr_rest(s, v, q, o1)
}

fn expr_rest(s: &[char], v: Rat, p: usize, o: usize) -> (r: Option<(Rat, usize, usize)>)
    requires
        p <= s@.len(),
        o <= p,
        v.wf(),
    ensures
        match r {
            Some((nv, q, o2)) => nv.wf() && p_expr_rest(s@, v.pair(), p as int, o as nat)
                == Some((nv.pair(), q as int, o2 as nat)) && p <= q <= s@.len() && o2 <= q,
            None => p_expr_rest(s@, v.pair(), p as int, o as nat) is None,
        },
    decreases s@.len() - p, 8int,
{
    let q = skip_ws_exec(s, p);
    if q < s.len() && (s[q] == '+' || s[q] == '-') {
        let (rhs, q2, o2) = match term(s, q + 1, o + 1) {
            Some(t) => t,
            None => return None,
        };
        let nv = if s[q] == '+' {
            plus(v, rhs)
        } else {
            minus(v, rhs)
        };
        match nv {
            None => None,
            Some(nv) => expr_rest(s, nv, q2, o2),
        }
    } else {
        Some((v, q, o))
    }
}

fn term(s: &[char], p: usize, o: usize) -> (r: Option<(Rat, usize, usize)>)
    requires
        p <= s@.len(),
        o <= p,
    ensures
        match r {
            Some((v, q, o2)) => v.wf() && p_term(s@, p as int, o as nat) == Some(
                (v.pair(), q as int, o2 as nat),
            ) && p < q <= s@.len() && o2 <= q,
            None => p_term(s@, p as int, o as nat) is None,
        },
    decreases s@.len() - p, 5int,
{
    let (v, q, o1) = match unary(s, p, o) {
        Some(t) => t,
        None => return None,
    };
    term_rest(s, v, q, o1)
}

fn term_rest(s: &[char], v: Rat, p: usize, o: usize) -> (r: Option<(Rat, usize, usize)>)
    requires
        p <= s@.len(),
        o <= p,
        v.wf(),
    ensures
        match r {
            Some((nv, q, o2)) => nv.wf() && p_term_rest(s@, v.pair(), p as int, o as nat)
                == Some((nv.pair(), q as int, o2 as nat)) && p <= q <= s@.len() && o2 <= q,
            None => p_term_rest(s@, v.pair(), p as int, o as nat) is None,
        },
    decreases s@.len() - p, 6int,
{
    let q = skip_ws_exec(s, p);
    if q < s.len() && (s[q] == '*' || s[q] == '/' || s[q] == '%') {
        let (rhs, q2, o2) = match unary(s, q + 1, o + 1) {
            Some(t) => t,
            None => return None,
        };
        let nv = if s[q] == '*' {
            times(v, rhs)
        } else if s[q] == '/' {
            over(v, rhs)
        } else {
            modulo(v, rhs)
        };
        match nv {
            None => None,
            Some(nv) => term_rest(s, nv, q2, o2),
        }
    } else {
        Some((v, q, o))
    }
}

fn unary(s: &[char], p: usize, o: usize) -> (r: Option<(Rat, usize, usize)>)
    requires
        p <= s@.len(),
        o <= p,
    ensures
        match r {
            Some((v, q, o2)) => v.wf() && p_unary(s@, p as int, o as nat) == Some(
                (v.pair(), q as int, o2 as nat),
            ) && p < q <= s@.len() && o2 <= q,
            None => p_unary(s@, p as int, o as nat) is None,
        },
    decreases s@.len() - p, 4int,
{
    let q = skip_ws_exec(s, p);
    if q >= s.len() {
        return None;
    }
    if s[q] == '-' {
        let (v, q2, o2) = match unary(s, q + 1, o) {
            Some(t) => t,
            None => return None,
        };
        Some((negate(v), q2, o2))
    } else if s[q] == '+' {
        unary(s, q + 1, o)
    } else {
        power(s, q, o)
    }
}

fn power(s: &[char], p: usize, o: usize) -> (r: Option<(Rat, usize, usize)>)
    requires
        p <= s@.len(),
        o <= p,
    ensures
        match r {
            Some((v, q, o2)) => v.wf() && p_power(s@, p as int, o as nat) == Some(
                (v.pair(), q as int, o2 as nat),
            ) && p < q <= s@.len() && o2 <= q,
            None => p_power(s@, p as int, o as nat) is None,
        },
    decreases s@.len() - p, 3int,
{
    let (base, q, o1) = match factor(s, p, o) {
        Some(t) => t,
        None => return None,
    };
    let q1 = skip_ws_exec(s, q);
    if q1 < s.len() && s[q1] == '^' {
        let (e, q2, o2) = match unary(s, q1 + 1, o1 + 1) {
            Some(t) => t,
            None => return None,
        };
        match raise(base, e) {
            None => None,
            Some(v) => Some((v, q2, o2)),
        }
    } else {
        Some((base, q1, o1))
    }
}

fn factor(s: &[char], p: usize, o: usize) -> (r: Option<(Rat, usize, usize)>)
    requires
        p <= s@.len(),
        o <= p,
    ensures
        match r {
            Some((v, q, o2)) => v.wf() && p_factor(s@, p as int, o as nat) == Some(
                (v.pair(), q as int, o2 as nat),
            ) && p < q <= s@.len() && o2 <= q,
            None => p_factor(s@, p as int, o as nat) is None,
        },
    decreases s@.len() - p, 2int,
{
    let q = skip_ws_exec(s, p);
    if q >= s.len() {
        return None;
    }
    if s[q] == '(' {
        let (v, q2, o2) = match expr(s, q + 1, o + 1) {
            Some(t) => t,
            None => return None,
        };
        let q3 = skip_ws_exec(s, q2);
        if q3 >= s.len() || s[q3] != ')' {
            return None;
        }
        Some((v, q3 + 1, o2))
    } else {
        match number(s, q) {
            None => None,
            Some((v, e)) => Some((v, e, o)),
        }
    }
}

fn parse_all_exec(s: &[char]) -> (r: Option<Rat>)
    ensures
        match r {
            Some(v) => v.wf() && parse_all(s@) == Some(v.pair()),
            None => parse_all(s@) is None,
        },
{
    let (v, q, o) = match expr(s, 0, 0) {
        Some(t) => t,
        None => return None,
    };
    let q2 = skip_ws_exec(s, q);
    if q2 != s.len() || o == 0 {
        return None;
    }
    Some(v)
}

// ----------------------------------------------------------------------------
// Preprocessing and the entry point
// ----------------------------------------------------------------------------

fn normalize_char_exec(c: char) -> (r: Option<char>)
    ensures
        r == normalize_char(c),
{
    if c == '×' || c == '·' {
        Some('*')
    } else if c == '÷' {
        Some('/')
    } else if c == ',' {
        Some('.')
    } else if ('0' <= c && c <= '9') || c == '+' || c == '-' || c == '*' || c == '/' || c
        == '%' || c == '^' || c == '(' || c == ')' || c == '.' || c == ' ' || c == '\t' {
        Some(c)
    } else {
        None
    }
}

fn normalize(t: &[char]) -> (r: Option<Vec<char>>)
    ensures
        match r {
            Some(n) => normalizes(t@) && n@ == normalized(t@),
            None => !normalizes(t@),
        },
{
    let mut out: Vec<char> = Vec::new();
    let mut i: usize = 0;
    while i < t.len()
        invariant
            i <= t@.len(),
            forall|k: int| 0 <= k < i ==> (#[trigger] normalize_char(t@[k])) is Some,
            out@ == normalized(t@.subrange(0, i as int)),
        decreases t@.len() - i,
    {
        match normalize_char_exec(t[i]) {
            Some(c) => {
                out.push(c);
            },
            None => {
                return None;
            },
        }
        i = i + 1;
        assert(out@ =~= normalized(t@.subrange(0, i as int)));
    }
    assert(t@.subrange(0, t@.len() as int) =~= t@);
    Some(out)
}

pub(crate) fn has_ascii_digit(t: &[char]) -> (r: bool)
    ensures
        r == (exists|i: int| 0 <= i < t@.len() && is_ascii_digit(#[trigger] t@[i])),
{
    let mut i: usize = 0;
    while i < t.len()
        invariant
            i <= t@.len(),
            forall|k: int| 0 <= k < i ==> !is_ascii_digit(#[trigger] t@[k]),
        decreases t@.len() - i,
    {
        if '0' <= t[i] && t[i] <= '9' {
            assert(is_ascii_digit(t@[i as int]));
            return true;
        }
        i = i + 1;
    }
    false
}

pub(crate) fn dot_to_comma_exec(s: &[char]) -> (r: Vec<char>)
    ensures
        r@ == dot_to_comma(s@),
{
    let mut out: Vec<char> = Vec::new();
    let mut i: usize = 0;
    while i < s.len()
        invariant
            i <= s@.len(),
            out@ == dot_to_comma(s@.subrange(0, i as int)),
        decreases s@.len() - i,
    {
        if s[i] == '.' {
            out.push(',');
        } else {
            out.push(s[i]);
        }
        i = i + 1;
        assert(out@ =~= dot_to_comma(s@.subrange(0, i as int)));
    }
    assert(s@.subrange(0, s@.len() as int) =~= s@);
    out
}

/// The query text the calculator reads (see [`calc_text`]).
pub(crate) fn calc_text_exec(input: &[char]) -> (r: Vec<char>)
    ensures
        r@ == calc_text(input@),
{
    let t = trim_chars(input);
    if t.len() > 0 && t[t.len() - 1] == '=' {
        let n = t.len() - 1;
        let j = trim_end_index(&t, n);
        assert(t@.subrange(0, n as int) =~= t@.drop_last());
        sub_chars(&t, 0, j)
    } else {
        let n = t.len();
        let j = trim_end_index(&t, n);
        assert(t@.subrange(0, n as int) =~= t@);
        sub_chars(&t, 0, j)
    }
}

/// Evaluate an expression, returning the formatted result when the input is a
/// complete, valid arithmetic expression. A result written with a decimal
/// comma answers with a comma.
pub fn evaluate(input: &str) -> (r: Option<String>)
    ensures
        match r {
            Some(s) => calc_result(input@) == Some(s@),
            None => calc_result(input@) is None,
        },
{
    let chars = chars_of(input);
    let t = calc_text_exec(&chars);
    if t.len() == 0 {
        return None;
    }
    // Require a digit, so plain words like "code" are never tried.
    if !has_ascii_digit(&t) {
        return None;
    }
    // A comma mixed with points is ambiguous ("1.000,5" vs "1,000.5").
    let comma = contains_char(&t, ',');
    if comma && contains_char(&t, '.') {
        return None;
    }
    let n = match normalize(&t) {
        Some(n) => n,
        None => return None,
    };
    let v = match parse_all_exec(&n) {
        Some(v) => v,
        None => return None,
    };
    let f = render(v);
    if comma {
        Some(string_of(&dot_to_comma_exec(&f)))
    } else {
        Some(string_of(&f))
    }
}

/// A character of a number literal: a digit or a point.
pub open spec fn literal_char(c: char) -> bool {
    '0' <= c <= '9' || c == '.'
}

/// `a` is a number literal with value `x`: digits and points only, read as
/// a decimal.
pub open spec fn literal(a: Seq<char>, x: (int, int)) -> bool {
    &&& a.len() > 0
    &&& forall|i: int| 0 <= i < a.len() ==> literal_char(#[trigger] a[i])
    &&& decimal_value(a) == Some(x)
}

/// `w` is a run of blanks (possibly empty).
pub open spec fn blanks(w: Seq<char>) -> bool {
    forall|i: int| 0 <= i < w.len() ==> is_blank(#[trigger] w[i])
}

proof fn lemma_run_end_at(s: Seq<char>, p: int, n: int)
    requires
        0 <= p <= n <= s.len(),
        forall|i: int| p <= i < n ==> literal_char(#[trigger] s[i]),
        n == s.len() || !literal_char(s[n]),
    ensures
        run_end(s, p) == n,
    decreases n - p,
{
    if p < n {
        assert(literal_char(s[p]));
        lemma_run_end_at(s, p + 1, n);
    }
}

proof fn lemma_skip_ws_at(s: Seq<char>, p: int, n: int)
    requires
        0 <= p <= n <= s.len(),
        forall|i: int| p <= i < n ==> is_blank(#[trigger] s[i]),
        n == s.len() || !is_blank(s[n]),
    ensures
        skip_ws(s, p) == n,
    decreases n - p,
{
    if p < n {
        assert(is_blank(s[p]));
        lemma_skip_ws_at(s, p + 1, n);
    }
}

/// The operand literal `s[p..n]` parses, as a unary, to its value, ending
/// at the first non-blank after it.
proof fn lemma_parse_operand(s: Seq<char>, p: int, n: int, m: int, x: (int, int), o: nat)
    requires
        0 <= p < n <= m <= s.len(),
        literal(s.subrange(p, n), x),
        n == s.len() || !literal_char(s[n]),
        forall|i: int| n <= i < m ==> is_blank(#[trigger] s[i]),
        m == s.len() || (!is_blank(s[m]) && s[m] != '^'),
    ensures
        p_unary(s, p, o) == Some((x, m, o)),
{
    let a = s.subrange(p, n);
    assert(forall|i: int| p <= i < n ==> literal_char(#[trigger] s[i])) by {
        assert forall|i: int| p <= i < n implies literal_char(#[trigger] s[i]) by {
            assert(s[i] == a[i - p]);
        }
    }
    assert(s[p] == a[0]);
    assert(!is_blank(s[p]));
    lemma_skip_ws_at(s, p, p);
    lemma_run_end_at(s, p, n);
    lemma_skip_ws_at(s, n, m);
    assert(p_number(s, p) == Some((x, n)));
    assert(p_factor(s, p, o) == Some((x, n, o)));
    assert(p_power(s, p, o) == Some((x, m, o)));
}

/// `a op b` (with blanks `w1`, `w2` around the operator) parses to the
/// operation on the two literals' values.
proof fn lemma_parse_binary(
    a: Seq<char>,
    w1: Seq<char>,
    op: char,
    w2: Seq<char>,
    b: Seq<char>,
    x: (int, int),
    y: (int, int),
)
    requires
        literal(a, x),
        literal(b, y),
        blanks(w1),
        blanks(w2),
        op == '+' || op == '-' || op == '*' || op == '/' || op == '%',
    ensures
        parse_all(a + w1 + seq![op] + w2 + b) == (if op == '+' {
            rat_add(x, y)
        } else if op == '-' {
            rat_sub(x, y)
        } else if op == '*' {
            rat_mul(x, y)
        } else if op == '/' {
            rat_div(x, y)
        } else {
            rat_rem(x, y)
        }),
{
    let s = a + w1 + seq![op] + w2 + b;
    let pa = a.len() as int;
    let po = pa + w1.len();
    let pb = po + 1 + w2.len();
    let n = s.len() as int;
    assert(s.subrange(0, pa) =~= a);
    assert(s.subrange(pb, n) =~= b);
    assert(s[po] == op);
    assert(forall|i: int| pa <= i < po ==> is_blank(#[trigger] s[i])) by {
        assert forall|i: int| pa <= i < po implies is_blank(#[trigger] s[i]) by {
            assert(s[i] == w1[i - pa]);
        }
    }
    assert(forall|i: int| po + 1 <= i < pb ==> is_blank(#[trigger] s[i])) by {
        assert forall|i: int| po + 1 <= i < pb implies is_blank(#[trigger] s[i]) by {
            assert(s[i] == w2[i - po - 1]);
        }
    }
    if pa < po {
        assert(!literal_char(s[pa]));
    } else {
        assert(s[pa] == op);
    }
    assert(s[pb] == b[0]);
    assert(literal_char(s[pb]));
    lemma_parse_operand(s, 0, pa, po, x, 0);
    lemma_parse_operand(s, pb, n, n, y, 1);
    lemma_skip_ws_at(s, po + 1, pb);
    lemma_skip_ws_at(s, po, po);
    lemma_skip_ws_at(s, n, n);
    assert(p_unary(s, po + 1, 1) == Some((y, n, 1nat)));
    assert(p_term_rest(s, y, n, 1) == Some((y, n, 1nat)));
    if op == '+' || op == '-' {
        assert(p_term_rest(s, x, po, 0) == Some((x, po, 0nat)));
        assert(p_term(s, 0, 0) == Some((x, po, 0nat)));
        assert(p_term(s, po + 1, 1) == Some((y, n, 1nat)));
        let r = if op == '+' {
            rat_add(x, y)
        } else {
            rat_sub(x, y)
        };
        if let Some(nv) = r {
            assert(p_expr_rest(s, nv, n, 1) == Some((nv, n, 1nat)));
        }
        assert(p_expr_rest(s, x, po, 0) == match r {
            None => None,
            Some(nv) => Some((nv, n, 1nat)),
        });
        assert(p_expr(s, 0, 0) == match r {
            None => None,
            Some(nv) => Some((nv, n, 1nat)),
        });
    } else {
        let r = if op == '*' {
            rat_mul(x, y)
        } else if op == '/' {
            rat_div(x, y)
        } else {
            rat_rem(x, y)
        };
        if let Some(nv) = r {
            assert(p_term_rest(s, nv, n, 1) == Some((nv, n, 1nat)));
            assert(p_expr_rest(s, nv, n, 1) == Some((nv, n, 1nat)));
        }
        assert(p_term_rest(s, x, po, 0) == match r {
            None => None,
            Some(nv) => Some((nv, n, 1nat)),
        });
        assert(p_term(s, 0, 0) == match r {
            None => None,
            Some(nv) => Some((nv, n, 1nat)),
        });
        assert(p_expr(s, 0, 0) == match r {
            None => None,
            Some(nv) => Some((nv, n, 1nat)),
        });
    }
}

proof fn lemma_literal_wf(a: Seq<char>, x: (int, int))
    requires
        literal(a, x),
    ensures
        pair_wf(x),
{
    let k = first_dot(a, 0);
    let fp = if k < a.len() {
        a.subrange(k + 1, a.len() as int)
    } else {
        seq![]
    };
    vstd::arithmetic::power::lemma_pow_positive(10, fp.len());
}

/// The calculator does arithmetic on its operands in order: for number
/// literals `a` and `b` (values `x`, `y`) and blanks around the operator,
/// `a + b`, `a - b`, `a * b` and `a / b` evaluate to the sum, the left
/// operand minus the right one, the product, and the left operand divided by
/// the right one (`r = n / d` written `r.0 * d == n * r.1`); each has a
/// value whenever the cross products fit in 128 bits (and, for `/`, `b` is
/// not zero).
pub proof fn lemma_calc_binary_values(
    a: Seq<char>,
    w1: Seq<char>,
    w2: Seq<char>,
    b: Seq<char>,
    x: (int, int),
    y: (int, int),
)
    requires
        literal(a, x),
        literal(b, y),
        blanks(w1),
        blanks(w2),
    ensures
        parse_all(a + w1 + seq!['+'] + w2 + b) matches Some(r) ==> r.0 * (x.1 * y.1) == (x.0 * y.1 + y.0
            * x.1) * r.1,
        parse_all(a + w1 + seq!['-'] + w2 + b) matches Some(r) ==> r.0 * (x.1 * y.1) == (x.0 * y.1 - y.0
            * x.1) * r.1,
        parse_all(a + w1 + seq!['*'] + w2 + b) matches Some(r) ==> r.0 * (x.1 * y.1) == (x.0 * y.0)
            * r.1,
        parse_all(a + w1 + seq!['/'] + w2 + b) matches Some(r) ==> r.0 * (x.1 * y.0) == (x.0 * y.1)
            * r.1,
        fits(x.0 * y.1) && fits(y.0 * x.1) && fits(x.0 * y.1 + y.0 * x.1) && fits(x.1 * y.1)
            ==> parse_all(a + w1 + seq!['+'] + w2 + b) is Some,
        fits(x.0 * y.1) && fits(y.0 * x.1) && fits(x.0 * y.1 - y.0 * x.1) && fits(x.1 * y.1)
            ==> parse_all(a + w1 + seq!['-'] + w2 + b) is Some,
        fits(x.0 * y.0) && fits(x.1 * y.1) ==> parse_all(a + w1 + seq!['*'] + w2 + b) is Some,
        y.0 != 0 && fits(x.0 * y.1) && fits(x.1 * y.0) ==> parse_all(a + w1 + seq!['/'] + w2 + b) is Some,
{
    lemma_literal_wf(a, x);
    lemma_literal_wf(b, y);
    lemma_rat_ops_values(x, y);
    lemma_parse_binary(a, w1, '+', w2, b, x, y);
    lemma_parse_binary(a, w1, '-', w2, b, x, y);
    lemma_parse_binary(a, w1, '*', w2, b, x, y);
    lemma_parse_binary(a, w1, '/', w2, b, x, y);
}

} // verus!
