//! Launch-history statistics: the per-key usage counts a query's ranking
//! reads, and the query normalization every history key is recorded under.

use crate::text::{chars_of, lowercase, string_of, str_eq, to_lower, trim, trim_chars};
use vstd::prelude::*;

verus! {

/// How often and how recently a result was launched, globally and for the
/// current query. Timestamps are Unix seconds; zero means never.
#[derive(Clone, Copy, Debug, Default)]
pub struct UsageStats {
    pub global_count: i64,
    pub global_last_used: i64,
    pub query_count: i64,
    pub query_last_used: i64,
}

/// One recorded key: `(key, launch_count, last_used)`.
pub type CountEntry = (String, i64, i64);

/// The value recorded for `key` in `entries`, if any.
pub open spec fn entry_for(entries: Seq<CountEntry>, key: Seq<char>) -> Option<(i64, i64)>
    decreases entries.len(),
{
    if entries.len() == 0 {
        None
    } else if entries.last().0@ == key {
        Some((entries.last().1, entries.last().2))
    } else {
        entry_for(entries.drop_last(), key)
    }
}

/// The counts as a map from key to `(launch_count, last_used)`.
pub open spec fn counts_map(entries: Seq<CountEntry>) -> Map<Seq<char>, (i64, i64)> {
    Map::new(|k: Seq<char>| entry_for(entries, k) is Some, |k: Seq<char>| entry_for(entries, k)->0)
}

/// All usage counts relevant to a single query, loaded in one pass so ranking
/// can score every result without a database round trip per item. The counts
/// are rows keyed by history key, read as a map (the last row of a key
/// decides): a vector has a specification to prove against, where a hash map
/// keyed by text has none that would carry these contracts.
#[derive(Default)]
pub struct StatsSnapshot {
    global: Vec<CountEntry>,
    per_query: Vec<CountEntry>,
}

fn find_entry(entries: &Vec<CountEntry>, key: &str) -> (r: Option<usize>)
    ensures
        match r {
            Some(i) => i < entries@.len() && entries@[i as int].0@ == key@ && entry_for(
                entries@,
                key@,
            ) == Some((entries@[i as int].1, entries@[i as int].2)),
            None => entry_for(entries@, key@) is None,
        },
{
    let mut i = entries.len();
    assert(entries@.subrange(0, i as int) =~= entries@);
    while i > 0
        invariant
            i <= entries@.len(),
            entry_for(entries@, key@) == entry_for(entries@.subrange(0, i as int), key@),
        decreases i,
    {
        let ghost pre = entries@.subrange(0, i as int);
        assert(pre.drop_last() =~= entries@.subrange(0, i - 1));
        assert(pre.last() == entries@[i - 1]);
        if str_eq(entries[i - 1].0.as_str(), key) {
            return Some(i - 1);
        }
        i = i - 1;
    }
    None
}

/// When no two rows share a key, the counts are the rows.
pub proof fn lemma_counts_of_distinct_rows(rows: Seq<CountEntry>, m: Map<Seq<char>, (i64, i64)>)
    requires
        forall|i: int|
            0 <= i < rows.len() ==> m.contains_key((#[trigger] rows[i]).0@) && m[rows[i].0@] == (
                rows[i].1,
                rows[i].2,
            ),
        forall|k: Seq<char>| #[trigger] m.contains_key(k) ==> exists|i: int| 0 <= i < rows.len() && (#[trigger] rows[i]).0@ == k,
    ensures
        counts_map(rows) == m,
{
    assert forall|k: Seq<char>| #[trigger] (entry_for(rows, k) is Some) == m.contains_key(k) && (m.contains_key(k) ==> entry_for(rows, k)->0 == m[k]) by {
        lemma_entry_for_rows(rows, k);
        if m.contains_key(k) {
            let i = choose|i: int| 0 <= i < rows.len() && (#[trigger] rows[i]).0@ == k;
            assert(rows[i].0@ == k);
        }
    }
    assert(counts_map(rows) =~= m);
}

/// The value recorded for `k` is that of a row with key `k`, and there is
/// one exactly when some row has that key.
proof fn lemma_entry_for_rows(rows: Seq<CountEntry>, k: Seq<char>)
    ensures
        (entry_for(rows, k) is Some) == (exists|i: int| 0 <= i < rows.len() && (#[trigger] rows[i]).0@ == k),
        entry_for(rows, k) matches Some(v) ==> exists|i: int|
            0 <= i < rows.len() && (#[trigger] rows[i]).0@ == k && v == (rows[i].1, rows[i].2),
    decreases rows.len(),
{
    if rows.len() > 0 {
        let d = rows.drop_last();
        lemma_entry_for_rows(d, k);
        if rows.last().0@ != k {
            assert forall|i: int| 0 <= i < rows.len() && (#[trigger] rows[i]).0@ == k implies 0 <= i < d.len()
                && d[i].0@ == k by {}
            if entry_for(d, k) is Some {
                let i = choose|i: int| 0 <= i < d.len() && (#[trigger] d[i]).0@ == k && entry_for(d, k)->0 == (d[i].1, d[i].2);
                assert(rows[i] == d[i]);
            }
        } else {
            assert(rows[rows.len() - 1].0@ == k);
        }
    }
}

proof fn lemma_entry_for_push(entries: Seq<CountEntry>, e: CountEntry, k: Seq<char>)
    ensures
        entry_for(entries.push(e), k) == if e.0@ == k {
            Some((e.1, e.2))
        } else {
            entry_for(entries, k)
        },
{
    assert(entries.push(e).drop_last() =~= entries);
}

proof fn lemma_entry_for_update(entries: Seq<CountEntry>, i: int, e: CountEntry, k: Seq<char>)
    requires
        0 <= i < entries.len(),
        entries[i].0@ == e.0@,
        forall|j: int| i < j < entries.len() ==> entries[j].0@ != e.0@,
    ensures
        entry_for(entries.update(i, e), k) == if e.0@ == k {
            Some((e.1, e.2))
        } else {
            entry_for(entries, k)
        },
    decreases entries.len(),
{
    let u = entries.update(i, e);
    if i == entries.len() - 1 {
        assert(u.drop_last() =~= entries.drop_last());
    } else {
        assert(u.drop_last() =~= entries.drop_last().update(i, e));
        lemma_entry_for_update(entries.drop_last(), i, e, k);
    }
}

fn insert_entry(entries: &mut Vec<CountEntry>, key: &str, count: i64, last_used: i64)
    ensures
        counts_map(final(entries)@) == counts_map(old(entries)@).insert(key@, (count, last_used)),
{
    let ghost old_e = entries@;
    let found = find_last(entries, key);
    match found {
        Some(i) => {
            let owned = string_of(&chars_of(key));
            let ghost e: CountEntry = (owned, count, last_used);
            entries.set(i, (owned, count, last_used));
            proof {
                assert forall|k: Seq<char>|
                    entry_for(entries@, k) == (if key@ == k {
                        Some((count, last_used))
                    } else {
                        entry_for(old_e, k)
                    }) by {
                    lemma_entry_for_update(old_e, i as int, e, k);
                }
            }
        },
        None => {
            let owned = string_of(&chars_of(key));
            let ghost e: CountEntry = (owned, count, last_used);
            entries.push((owned, count, last_used));
            proof {
                assert forall|k: Seq<char>|
                    entry_for(entries@, k) == (if key@ == k {
                        Some((count, last_used))
                    } else {
                        entry_for(old_e, k)
                    }) by {
                    lemma_entry_for_push(old_e, e, k);
                }
            }
        },
    }
    assert(counts_map(entries@) =~= counts_map(old_e).insert(key@, (count, last_used)));
}

/// The last index holding `key`; no later entry holds it.
fn find_last(entries: &Vec<CountEntry>, key: &str) -> (r: Option<usize>)
    ensures
        match r {
            Some(i) => i < entries@.len() && entries@[i as int].0@ == key@ && forall|j: int|
                i < j < entries@.len() ==> entries@[j].0@ != key@,
            None => forall|j: int| 0 <= j < entries@.len() ==> entries@[j].0@ != key@,
        },
{
    let mut i = entries.len();
    while i > 0
        invariant
            i <= entries@.len(),
            forall|j: int| i <= j < entries@.len() ==> entries@[j].0@ != key@,
        decreases i,
    {
        if str_eq(entries[i - 1].0.as_str(), key) {
            return Some(i - 1);
        }
        i = i - 1;
    }
    None
}

impl StatsSnapshot {
    /// Launch counts by key, over all queries.
    pub closed spec fn global_view(&self) -> Map<Seq<char>, (i64, i64)> {
        counts_map(self.global@)
    }

    /// Launch counts by key, for the snapshot's query.
    pub closed spec fn query_view(&self) -> Map<Seq<char>, (i64, i64)> {
        counts_map(self.per_query@)
    }

    /// An empty snapshot: nothing was ever launched.
    pub fn new() -> (s: Self)
        ensures
            s.global_view() == Map::<Seq<char>, (i64, i64)>::empty(),
            s.query_view() == Map::<Seq<char>, (i64, i64)>::empty(),
    {
        let s = StatsSnapshot { global: Vec::new(), per_query: Vec::new() };
        assert(counts_map(s.global@) =~= Map::empty());
        assert(counts_map(s.per_query@) =~= Map::empty());
        s
    }

    /// A snapshot of the rows `(key, launch_count, last_used)` read for all
    /// queries (`global`) and for the snapshot's query (`per_query`); a later
    /// row of a key replaces an earlier one, and rows that could not be read
    /// (`None`) count as none.
    pub fn from_rows(global: Option<Vec<CountEntry>>, per_query: Option<Vec<CountEntry>>) -> (s: Self)
        ensures
            s.global_view() == match global {
                Some(v) => counts_map(v@),
                None => Map::<Seq<char>, (i64, i64)>::empty(),
            },
            s.query_view() == match per_query {
                Some(v) => counts_map(v@),
                None => Map::<Seq<char>, (i64, i64)>::empty(),
            },
    {
        let g = match global {
            Some(v) => v,
            None => Vec::new(),
        };
        let q = match per_query {
            Some(v) => v,
            None => Vec::new(),
        };
        assert(counts_map(Seq::<CountEntry>::empty()) =~= Map::<Seq<char>, (i64, i64)>::empty());
        StatsSnapshot { global: g, per_query: q }
    }

    /// Records the global counts of `key` (later records replace earlier ones).
    pub fn insert_global(&mut self, key: &str, count: i64, last_used: i64)
        ensures
            final(self).global_view() == old(self).global_view().insert(key@, (count, last_used)),
            final(self).query_view() == old(self).query_view(),
    {
        insert_entry(&mut self.global, key, count, last_used);
    }

    /// Records the counts of `key` for the snapshot's query.
    pub fn insert_query(&mut self, key: &str, count: i64, last_used: i64)
        ensures
            final(self).query_view() == old(self).query_view().insert(key@, (count, last_used)),
            final(self).global_view() == old(self).global_view(),
    {
        insert_entry(&mut self.per_query, key, count, last_used);
    }

    /// Usage stats for one history key (a desktop-file path or a synthetic
    /// id); zeros where nothing was recorded.
    pub fn stats_for(&self, key: &str) -> (r: UsageStats)
        ensures
            r == stats_of(self.global_view(), self.query_view(), key@),
    {
        let g = find_entry(&self.global, key);
        let q = find_entry(&self.per_query, key);
        let (global_count, global_last_used) = match g {
            Some(i) => (self.global[i].1, self.global[i].2),
            None => (0, 0),
        };
        let (query_count, query_last_used) = match q {
            Some(i) => (self.per_query[i].1, self.per_query[i].2),
            None => (0, 0),
        };
        UsageStats { global_count, global_last_used, query_count, query_last_used }
    }
}

/// The stats a snapshot reports for `key`.
pub open spec fn stats_of(
    global: Map<Seq<char>, (i64, i64)>,
    per_query: Map<Seq<char>, (i64, i64)>,
    key: Seq<char>,
) -> UsageStats {
    let g = if global.contains_key(key) {
        global[key]
    } else {
        (0, 0)
    };
    let q = if per_query.contains_key(key) {
        per_query[key]
    } else {
        (0, 0)
    };
    UsageStats { global_count: g.0, global_last_used: g.1, query_count: q.0, query_last_used: q.1 }
}

/// The form every query is recorded and looked up under: trimmed, then
/// lowercased.
pub open spec fn normalized_query(q: Seq<char>) -> Seq<char> {
    lowercase(trim(q))
}

/// Normalize a query for history keys (`trim` then `to_lowercase`).
pub fn normalize_query(query: &str) -> (r: String)
    ensures
        r@ == normalized_query(query@),
{
    let t = string_of(&trim_chars(&chars_of(query)));
    to_lower(t.as_str())
}

} // verus!
