//! The order results are shown in: highest score first, equal scores by
//! case-insensitive title, and entries that tie on both in their incoming
//! order (a stable sort); only the first few are kept.
//!
//! An entry is ranked by its key: its score and its lowercased title.

use vstd::prelude::*;

verus! {

/// `a` comes strictly before `b` in lexicographic character order, comparing
/// from position `i` on (the order of `str`'s `Ord`: UTF-8 byte order, which
/// is code-point order).
pub open spec fn lex_lt_at(a: Seq<char>, b: Seq<char>, i: int) -> bool
    decreases a.len() - i,
{
    if i >= a.len() {
        b.len() > i
    } else if i >= b.len() {
        false
    } else if a[i] != b[i] {
        a[i] < b[i]
    } else {
        lex_lt_at(a, b, i + 1)
    }
}

/// Strict lexicographic order on character sequences.
pub open spec fn lex_lt(a: Seq<char>, b: Seq<char>) -> bool {
    lex_lt_at(a, b, 0)
}

/// Key `a` ranks strictly above key `b`: a higher score, or an equal score
/// and a title that sorts first.
pub open spec fn key_before(a: (i64, Seq<char>), b: (i64, Seq<char>)) -> bool {
    a.0 > b.0 || (a.0 == b.0 && lex_lt(a.1, b.1))
}

/// In the ranking of the entries keyed `ks`, entry `i` comes before entry
/// `j`; entries with equal keys keep their order.
pub open spec fn precedes(ks: Seq<(i64, Seq<char>)>, i: int, j: int) -> bool {
    key_before(ks[i], ks[j]) || (ks[i] == ks[j] && i < j)
}

/// `p` lists the first `m` positions of `ks` in ranking order: they are in
/// range, ranked one before the next, and every position not listed ranks
/// after all of them.
pub open spec fn top_ranked(ks: Seq<(i64, Seq<char>)>, p: Seq<int>, m: int) -> bool {
    &&& p.len() == m
    &&& forall|k: int| 0 <= k < m ==> 0 <= #[trigger] p[k] < ks.len()
    &&& forall|k1: int, k2: int|
        0 <= k1 < k2 < m ==> precedes(ks, #[trigger] p[k1], #[trigger] p[k2])
    &&& forall|i: int, k: int|
        0 <= i < ks.len() && 0 <= k < m && (forall|k2: int| 0 <= k2 < m ==> p[k2] != i)
            ==> #[trigger] precedes(ks, p[k], i)
}

/// The keys of `keys` as values: score and title characters.
pub open spec fn key_views(keys: Seq<(i64, Vec<char>)>) -> Seq<(i64, Seq<char>)> {
    Seq::new(keys.len(), |i: int| (keys[i].0, keys[i].1@))
}

proof fn lemma_lex_irrefl(a: Seq<char>, i: int)
    requires
        0 <= i,
    ensures
        !lex_lt_at(a, a, i),
    decreases a.len() - i,
{
    if i < a.len() {
        lemma_lex_irrefl(a, i + 1);
    }
}

proof fn lemma_lex_trans(a: Seq<char>, b: Seq<char>, c: Seq<char>, i: int)
    requires
        0 <= i,
        lex_lt_at(a, b, i),
        lex_lt_at(b, c, i),
    ensures
        lex_lt_at(a, c, i),
    decreases a.len() - i,
{
    if i < a.len() && i < b.len() && i < c.len() && a[i] == b[i] && b[i] == c[i] {
        lemma_lex_trans(a, b, c, i + 1);
    }
}

proof fn lemma_lex_total(a: Seq<char>, b: Seq<char>, i: int)
    requires
        0 <= i <= a.len(),
        i <= b.len(),
        !lex_lt_at(a, b, i),
        !lex_lt_at(b, a, i),
    ensures
        a.len() == b.len(),
        forall|k: int| i <= k < a.len() ==> a[k] == b[k],
    decreases a.len() - i,
{
    if i < a.len() && i < b.len() {
        lemma_lex_total(a, b, i + 1);
    }
}

/// The lexicographic order is a strict total order.
pub proof fn lemma_lex_order(a: Seq<char>, b: Seq<char>, c: Seq<char>)
    ensures
        !lex_lt(a, a),
        lex_lt(a, b) && lex_lt(b, c) ==> lex_lt(a, c),
        lex_lt(a, b) || lex_lt(b, a) || a == b,
{
    lemma_lex_irrefl(a, 0);
    if lex_lt(a, b) && lex_lt(b, c) {
        lemma_lex_trans(a, b, c, 0);
    }
    if !lex_lt(a, b) && !lex_lt(b, a) {
        lemma_lex_total(a, b, 0);
        assert(a =~= b);
    }
}

/// `precedes` is a strict total order on the positions of `ks`.
pub proof fn lemma_precedes_order(ks: Seq<(i64, Seq<char>)>, i: int, j: int, k: int)
    ensures
        !precedes(ks, i, i),
        i != j ==> (precedes(ks, i, j) || precedes(ks, j, i)),
        precedes(ks, i, j) ==> !precedes(ks, j, i),
        precedes(ks, i, j) && precedes(ks, j, k) ==> precedes(ks, i, k),
{
    lemma_lex_order(ks[i].1, ks[j].1, ks[k].1);
    lemma_lex_order(ks[j].1, ks[i].1, ks[k].1);
    lemma_lex_order(ks[i].1, ks[j].1, ks[i].1);
    if ks[i].0 == ks[j].0 && ks[i].1 == ks[j].1 {
        assert(ks[i] == ks[j]);
    }
}

proof fn lemma_increasing_at_least(q: Seq<int>, k: int)
    requires
        0 <= k < q.len(),
        forall|k1: int| 0 <= k1 < q.len() ==> 0 <= #[trigger] q[k1],
        forall|k1: int, k2: int| 0 <= k1 < k2 < q.len() ==> #[trigger] q[k1] < #[trigger] q[k2],
    ensures
        q[k] >= k,
    decreases k,
{
    if k > 0 {
        lemma_increasing_at_least(q, k - 1);
        assert(q[k - 1] < q[k]);
    }
}

proof fn lemma_increasing_at_most(q: Seq<int>, k: int)
    requires
        0 <= k < q.len(),
        forall|k1: int| 0 <= k1 < q.len() ==> #[trigger] q[k1] < q.len(),
        forall|k1: int, k2: int| 0 <= k1 < k2 < q.len() ==> #[trigger] q[k1] < #[trigger] q[k2],
    ensures
        q[k] <= k,
    decreases q.len() - k,
{
    if k + 1 < q.len() {
        lemma_increasing_at_most(q, k + 1);
        assert(q[k] < q[k + 1]);
    }
}

/// When the entries keyed `ks` are already in ranking order, a ranking of
/// all of them lists every position in place.
pub proof fn lemma_ranked_in_order(ks: Seq<(i64, Seq<char>)>, q: Seq<int>)
    requires
        top_ranked(ks, q, ks.len() as int),
        forall|i: int, j: int| 0 <= i < j < ks.len() ==> #[trigger] precedes(ks, i, j),
    ensures
        forall|k: int| 0 <= k < ks.len() ==> #[trigger] q[k] == k,
{
    assert forall|k1: int, k2: int| 0 <= k1 < k2 < q.len() implies #[trigger] q[k1] < #[trigger] q[k2] by {
        assert(precedes(ks, q[k1], q[k2]));
        lemma_precedes_order(ks, q[k1], q[k2], q[k1]);
        if q[k2] < q[k1] {
            assert(precedes(ks, q[k2], q[k1]));
        }
    }
    assert forall|k: int| 0 <= k < ks.len() implies #[trigger] q[k] == k by {
        lemma_increasing_at_least(q, k);
        lemma_increasing_at_most(q, k);
    }
}

/// Entry `k` of a ranking `p` comes before every position that `p` does not
/// list before `k`.
proof fn lemma_ranked_first_of_rest(ks: Seq<(i64, Seq<char>)>, p: Seq<int>, m: int, k: int, b: int)
    requires
        top_ranked(ks, p, m),
        0 <= k < m,
        0 <= b < ks.len(),
        b != p[k],
        forall|j: int| 0 <= j < k ==> #[trigger] p[j] != b,
    ensures
        precedes(ks, p[k], b),
{
    if exists|j: int| 0 <= j < m && p[j] == b {
        let j = choose|j: int| 0 <= j < m && p[j] == b;
        assert(j > k);
        assert(precedes(ks, p[k], p[j]));
    } else {
        assert(forall|k2: int| 0 <= k2 < m ==> p[k2] != b);
        assert(precedes(ks, p[k], b));
    }
}

/// A ranking is unique: two rankings of the first `m` entries of `ks` list
/// the same positions in the same order. So the ranking is the stable sort
/// by key, cut after `m`.
pub proof fn lemma_top_ranked_unique(ks: Seq<(i64, Seq<char>)>, p: Seq<int>, q: Seq<int>, m: int)
    requires
        top_ranked(ks, p, m),
        top_ranked(ks, q, m),
    ensures
        p == q,
{
    assert forall|k: int| 0 <= k < m implies #[trigger] p[k] == q[k] by {
        lemma_top_ranked_unique_upto(ks, p, q, m, k);
    }
    assert(p =~= q);
}

proof fn lemma_top_ranked_unique_upto(ks: Seq<(i64, Seq<char>)>, p: Seq<int>, q: Seq<int>, m: int, k: int)
    requires
        top_ranked(ks, p, m),
        top_ranked(ks, q, m),
        0 <= k < m,
    ensures
        forall|j: int| 0 <= j <= k ==> #[trigger] p[j] == q[j],
    decreases k,
{
    if k > 0 {
        lemma_top_ranked_unique_upto(ks, p, q, m, k - 1);
    }
    let a = p[k];
    let b = q[k];
    if a != b {
        assert forall|j: int| 0 <= j < k implies #[trigger] p[j] != b by {
            assert(p[j] == q[j]);
            assert(precedes(ks, q[j], q[k]));
            lemma_precedes_order(ks, q[j], q[k], q[k]);
        }
        assert forall|j: int| 0 <= j < k implies #[trigger] q[j] != a by {
            assert(p[j] == q[j]);
            assert(precedes(ks, p[j], p[k]));
            lemma_precedes_order(ks, p[j], p[k], p[k]);
        }
        lemma_ranked_first_of_rest(ks, p, m, k, b);
        lemma_ranked_first_of_rest(ks, q, m, k, a);
        lemma_precedes_order(ks, a, b, a);
    }
}

/// Whether `a` sorts strictly before `b`.
pub fn lex_less(a: &[char], b: &[char]) -> (r: bool)
    ensures
        r == lex_lt(a@, b@),
{
    let mut i: usize = 0;
    while i < a.len() && i < b.len()
        invariant
            i <= a@.len(),
            i <= b@.len(),
            lex_lt(a@, b@) == lex_lt_at(a@, b@, i as int),
        decreases a@.len() - i,
    {
        if a[i] != b[i] {
            return a[i] < b[i];
        }
        i = i + 1;
    }
    a.len() < b.len() && i == a.len()
}

fn key_above(a: &(i64, Vec<char>), b: &(i64, Vec<char>)) -> (r: bool)
    ensures
        r == key_before((a.0, a.1@), (b.0, b.1@)),
{
    a.0 > b.0 || (a.0 == b.0 && lex_less(a.1.as_slice(), b.1.as_slice()))
}

/// The position in `keys` of the entry that comes first in the ranking of
/// `ks`, where `keys[t]` is the key of entry `orig[t]` and `orig` is
/// increasing.
fn pick_best(
    keys: &Vec<(i64, Vec<char>)>,
    Ghost(ks): Ghost<Seq<(i64, Seq<char>)>>,
    Ghost(orig): Ghost<Seq<int>>,
) -> (best: usize)
    requires
        keys@.len() > 0,
        keys@.len() == orig.len(),
        forall|t: int| 0 <= t < orig.len() ==> 0 <= #[trigger] orig[t] < ks.len(),
        forall|t: int|
            0 <= t < orig.len() ==> ((#[trigger] keys@[t]).0, keys@[t].1@) == ks[orig[t]],
        forall|t1: int, t2: int|
            0 <= t1 < t2 < orig.len() ==> #[trigger] orig[t1] < #[trigger] orig[t2],
    ensures
        best < keys@.len(),
        forall|u: int|
            0 <= u < orig.len() && u != best ==> precedes(ks, orig[best as int], #[trigger] orig[u]),
{
    let mut best: usize = 0;
    let mut t: usize = 1;
    while t < keys.len()
        invariant
            keys@.len() == orig.len(),
            forall|t: int| 0 <= t < orig.len() ==> 0 <= #[trigger] orig[t] < ks.len(),
            forall|t: int|
                0 <= t < orig.len() ==> ((#[trigger] keys@[t]).0, keys@[t].1@) == ks[orig[t]],
            forall|t1: int, t2: int|
                0 <= t1 < t2 < orig.len() ==> #[trigger] orig[t1] < #[trigger] orig[t2],
            1 <= t <= keys@.len(),
            best < t,
            forall|u: int|
                0 <= u < t && u != best ==> precedes(ks, orig[best as int], #[trigger] orig[u]),
        decreases keys@.len() - t,
    {
        let ghost ob = orig[best as int];
        let ghost ot = orig[t as int];
        assert((keys@[t as int].0, keys@[t as int].1@) == ks[ot]);
        assert((keys@[best as int].0, keys@[best as int].1@) == ks[ob]);
        if key_above(&keys[t], &keys[best]) {
            proof {
                assert forall|u: int| 0 <= u < t + 1 && u != t implies precedes(
                    ks,
                    ot,
                    #[trigger] orig[u],
                ) by {
                    if u != best {
                        lemma_precedes_order(ks, ot, ob, orig[u]);
                    }
                }
            }
            best = t;
        } else {
            proof {
                assert(ob < ot);
                lemma_precedes_order(ks, ob, ot, ob);
            }
        }
        t = t + 1;
    }
    best
}

/// The first `max` of `items` in ranking order, `keys[i]` being the key of
/// `items[i]` (at most `max` are kept).
pub fn select_top<T>(items: Vec<T>, keys: Vec<(i64, Vec<char>)>, max: usize) -> (r: Vec<T>)
    requires
        keys@.len() == items@.len(),
    ensures
        r@.len() == (if items@.len() < max {
            items@.len()
        } else {
            max as nat
        }),
        exists|p: Seq<int>|
            top_ranked(key_views(keys@), p, r@.len() as int) && forall|k: int|
                0 <= k < r@.len() ==> #[trigger] r@[k] == items@[p[k]],
{
    let ghost s = items@;
    let ghost ks = key_views(keys@);
    let n = items.len();
    let mut rest = items;
    let mut rkeys = keys;
    let ghost mut orig: Seq<int> = Seq::new(n as nat, |i: int| i);
    let ghost mut p: Seq<int> = seq![];
    let ghost mut loc: Seq<(bool, int)> = Seq::new(n as nat, |i: int| (false, i));
    let mut out: Vec<T> = Vec::new();
    while out.len() < max && rest.len() > 0
        invariant
            s.len() == n,
            ks.len() == n,
            loc.len() == n,
            rest@.len() == orig.len(),
            rkeys@.len() == orig.len(),
            p.len() + orig.len() == n,
            forall|t: int| 0 <= t < orig.len() ==> 0 <= #[trigger] orig[t] < n,
            forall|t: int| 0 <= t < orig.len() ==> #[trigger] rest@[t] == s[orig[t]],
            forall|t: int|
                0 <= t < orig.len() ==> ((#[trigger] rkeys@[t]).0, rkeys@[t].1@) == ks[orig[t]],
            forall|t1: int, t2: int|
                0 <= t1 < t2 < orig.len() ==> #[trigger] orig[t1] < #[trigger] orig[t2],
            out@.len() == p.len(),
            p.len() <= max,
            forall|k: int| 0 <= k < p.len() ==> 0 <= #[trigger] p[k] < n,
            forall|k: int| 0 <= k < p.len() ==> #[trigger] out@[k] == s[p[k]],
            forall|k1: int, k2: int|
                0 <= k1 < k2 < p.len() ==> precedes(ks, #[trigger] p[k1], #[trigger] p[k2]),
            forall|k: int, t: int|
                0 <= k < p.len() && 0 <= t < orig.len() ==> precedes(
                    ks,
                    #[trigger] p[k],
                    #[trigger] orig[t],
                ),
            forall|i: int|
                0 <= i < n && (#[trigger] loc[i]).0 ==> 0 <= loc[i].1 < p.len() && p[loc[i].1] == i,
            forall|i: int|
                0 <= i < n && !(#[trigger] loc[i]).0 ==> 0 <= loc[i].1 < orig.len() && orig[loc[i].1]
                    == i,
        decreases rest@.len(),
    {
        let best = pick_best(&rkeys, Ghost(ks), Ghost(orig));
        let ghost m = best as int;
        let ghost chosen = orig[m];
        let ghost old_orig = orig;
        let ghost old_p = p;
        let ghost old_loc = loc;
        assert(rest@[m] == s[chosen]);
        let item = rest.remove(best);
        let _ = rkeys.remove(best);
        out.push(item);
        proof {
            p = old_p.push(chosen);
            orig = old_orig.remove(m);
            loc = Seq::new(
                n as nat,
                |i: int|
                    if old_loc[i].0 {
                        old_loc[i]
                    } else if old_loc[i].1 == m {
                        (true, old_p.len() as int)
                    } else if old_loc[i].1 > m {
                        (false, old_loc[i].1 - 1)
                    } else {
                        old_loc[i]
                    },
            );
            assert forall|t: int| 0 <= t < orig.len() implies #[trigger] orig[t] == (if t < m {
                old_orig[t]
            } else {
                old_orig[t + 1]
            }) by {}
            assert forall|k: int| 0 <= k < p.len() implies #[trigger] out@[k] == s[p[k]] by {
                if k < old_p.len() {
                    assert(p[k] == old_p[k]);
                }
            }
            assert forall|k1: int, k2: int| 0 <= k1 < k2 < p.len() implies precedes(
                ks,
                #[trigger] p[k1],
                #[trigger] p[k2],
            ) by {
                if k2 == old_p.len() {
                    assert(old_orig[m] == chosen);
                    assert(precedes(ks, old_p[k1], old_orig[m]));
                } else {
                    assert(precedes(ks, old_p[k1], old_p[k2]));
                }
            }
            assert forall|k: int, t: int| 0 <= k < p.len() && 0 <= t < orig.len() implies precedes(
                ks,
                #[trigger] p[k],
                #[trigger] orig[t],
            ) by {
                let u = if t < m {
                    t
                } else {
                    t + 1
                };
                assert(orig[t] == old_orig[u]);
                if k == old_p.len() {
                    assert(precedes(ks, old_orig[m], old_orig[u]));
                } else {
                    assert(precedes(ks, old_p[k], old_orig[u]));
                }
            }
            assert forall|i: int| 0 <= i < n && (#[trigger] loc[i]).0 implies 0 <= loc[i].1 < p.len()
                && p[loc[i].1] == i by {
                if old_loc[i].0 {
                    assert(p[old_loc[i].1] == old_p[old_loc[i].1]);
                }
            }
            assert forall|i: int| 0 <= i < n && !(#[trigger] loc[i]).0 implies 0 <= loc[i].1
                < orig.len() && orig[loc[i].1] == i by {
                let t = old_loc[i].1;
                if t > m {
                    assert(orig[t - 1] == old_orig[t]);
                } else {
                    assert(orig[t] == old_orig[t]);
                }
            }
        }
    }
    proof {
        let m = out@.len() as int;
        assert forall|i: int, k: int|
            0 <= i < ks.len() && 0 <= k < m && (forall|k2: int| 0 <= k2 < m ==> p[k2] != i)
                implies #[trigger] precedes(ks, p[k], i) by {
            if loc[i].0 {
                assert(p[loc[i].1] == i);
            } else {
                assert(orig[loc[i].1] == i);
                assert(precedes(ks, p[k], orig[loc[i].1]));
            }
        }
        assert(top_ranked(ks, p, m));
    }
    out
}

/// In a ranked selection, scores never increase from one entry to a later
/// one; entries of equal score are in title order, and entries whose keys
/// tie keep their incoming order.
pub proof fn lemma_ranked_entries_are_ordered(
    ks: Seq<(i64, Seq<char>)>,
    p: Seq<int>,
    m: int,
    k1: int,
    k2: int,
)
    requires
        top_ranked(ks, p, m),
        0 <= k1 < k2 < m,
    ensures
        ks[p[k1]].0 >= ks[p[k2]].0,
        ks[p[k1]].0 == ks[p[k2]].0 ==> !lex_lt(ks[p[k2]].1, ks[p[k1]].1),
        ks[p[k1]] == ks[p[k2]] ==> p[k1] < p[k2],
        p[k1] != p[k2],
{
    assert(precedes(ks, p[k1], p[k2]));
    lemma_precedes_order(ks, p[k1], p[k2], p[k1]);
    lemma_lex_order(ks[p[k2]].1, ks[p[k1]].1, ks[p[k2]].1);
}

/// An entry left out of a ranked selection never beats one kept in it: its
/// score is at most that of every kept entry.
pub proof fn lemma_dropped_entries_rank_lower(
    ks: Seq<(i64, Seq<char>)>,
    p: Seq<int>,
    m: int,
    k: int,
    i: int,
)
    requires
        top_ranked(ks, p, m),
        0 <= k < m,
        0 <= i < ks.len(),
        forall|k2: int| 0 <= k2 < m ==> p[k2] != i,
    ensures
        ks[p[k]].0 >= ks[i].0,
{
    assert(precedes(ks, p[k], i));
}

} // verus!
