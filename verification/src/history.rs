//! The launch history and the plugins' persistent storage, kept in an SQLite
//! database (`~/.local/share/nursearch/history.sqlite`; opening the file is
//! the application's part).
//!
//! Three tables: launches of each history key over all queries, launches per
//! (normalized query, key), and key/value pairs per plugin.

use crate::db::{lemma_counts_of_distinct_rows, normalize_query, normalized_query, StatsSnapshot};
use crate::text::{chars_of, starts_with, starts_with_exec};
use crate::direct::opt_view;
use crate::rank::unix_now;
use vstd::prelude::*;

verus! {

/// `rusqlite::Connection`, an open database.
#[verifier::external_type_specification]
#[verifier::external_body]
pub struct ExConnection(rusqlite::Connection);

/// `rusqlite::Error`.
#[verifier::external_type_specification]
#[verifier::external_body]
pub struct ExSqlError(rusqlite::Error);

/// The rows of `app_usage` that read as (text, integer, integer): launch
/// count and last launch time by history key.
pub uninterp spec fn launches(db: rusqlite::Connection) -> Map<Seq<char>, (i64, i64)>;

/// The rows of `query_usage` that read as (text, text, integer, integer):
/// launch count and last launch time by (normalized query, history key).
pub uninterp spec fn query_launches(db: rusqlite::Connection) -> Map<(Seq<char>, Seq<char>), (i64, i64)>;

/// The rows of `plugin_storage` that read as text: value by (plugin id, key).
pub uninterp spec fn stored(db: rusqlite::Connection) -> Map<(Seq<char>, Seq<char>), Seq<char>>;

/// The database's tables are the library's own: `app_usage`, `query_usage`
/// and `plugin_storage`, where they exist, are as [`create_tables`] declares
/// them (text keys that are unique and compared byte by byte, no triggers),
/// and every row of the two usage tables reads as text keys with an integer
/// count and time. A file that another program edited need not be so.
pub uninterp spec fn own_tables(db: rusqlite::Connection) -> bool;

/// `m` with the launch of `k` at time `now` counted.
pub open spec fn bumped<K>(m: Map<K, (i64, i64)>, k: K, now: i64) -> Map<K, (i64, i64)> {
    m.insert(
        k,
        if m.contains_key(k) {
            ((m[k].0 + 1) as i64, now)
        } else {
            (1, now)
        },
    )
}

/// The count of `k` in `m` can still grow without overflowing.
pub open spec fn can_bump<K>(m: Map<K, (i64, i64)>, k: K) -> bool {
    m.contains_key(k) ==> m[k].0 < i64::MAX
}

/// Calls `rusqlite::Connection::open_in_memory`: a new, empty database.
#[verifier::external_body]
fn memory_connection() -> (r: Result<rusqlite::Connection, rusqlite::Error>)
    ensures
        r matches Ok(c) ==> launches(c).is_empty() && query_launches(c).is_empty() && stored(
            c,
        ).is_empty() && own_tables(c),
{
    rusqlite::Connection::open_in_memory()
}

/// Calls `rusqlite::Connection::execute_batch` with the schema: tables that
/// do not exist yet are created (empty, as declared); existing tables and
/// rows stay as they are.
#[verifier::external_body]
fn create_tables(conn: &mut rusqlite::Connection) -> (r: Result<(), rusqlite::Error>)
    ensures
        launches(*final(conn)) == launches(*old(conn)),
        query_launches(*final(conn)) == query_launches(*old(conn)),
        stored(*final(conn)) == stored(*old(conn)),
        own_tables(*old(conn)) ==> own_tables(*final(conn)),
{
    conn.execute_batch(
        "PRAGMA foreign_keys = ON;
        CREATE TABLE IF NOT EXISTS app_usage (desktop_file TEXT PRIMARY KEY, launch_count INTEGER NOT NULL DEFAULT 0, last_used INTEGER NOT NULL DEFAULT 0);
        CREATE TABLE IF NOT EXISTS query_usage (query TEXT NOT NULL, desktop_file TEXT NOT NULL, launch_count INTEGER NOT NULL DEFAULT 0, last_used INTEGER NOT NULL DEFAULT 0, PRIMARY KEY (query, desktop_file));
        CREATE TABLE IF NOT EXISTS plugin_storage (plugin_id TEXT NOT NULL, key TEXT NOT NULL, value TEXT NOT NULL, PRIMARY KEY (plugin_id, key));",
    )
}

/// The error's message (`Display` of `rusqlite::Error`).
#[verifier::external_body]
fn error_text(e: &rusqlite::Error) -> String {
    e.to_string()
}

/// Calls `rusqlite::Connection::execute` with an upsert into
/// `plugin_storage`: on the library's own tables, success sets the value of
/// (plugin, key) to `value` and touches nothing else. An SQLite statement
/// changes nothing when it fails. (On tables of another schema, with
/// triggers or another collation, the effect of a success is not claimed.)
#[verifier::external_body]
fn put_value(conn: &mut rusqlite::Connection, plugin_id: &str, key: &str, value: &str) -> (r: Result<usize, rusqlite::Error>)
    ensures
        r is Ok && own_tables(*old(conn)) ==> stored(*final(conn)) == stored(*old(conn)).insert(
            (plugin_id@, key@),
            value@,
        ),
        r is Ok && own_tables(*old(conn)) ==> launches(*final(conn)) == launches(*old(conn))
            && query_launches(*final(conn)) == query_launches(*old(conn)) && own_tables(*final(conn)),
        r is Err ==> launches(*final(conn)) == launches(*old(conn)) && query_launches(*final(conn))
            == query_launches(*old(conn)) && stored(*final(conn)) == stored(*old(conn)) && own_tables(
            *final(conn),
        ) == own_tables(*old(conn)),
{
    conn.execute(
        "INSERT INTO plugin_storage (plugin_id, key, value) VALUES (?1, ?2, ?3) ON CONFLICT(plugin_id, key) DO UPDATE SET value = excluded.value",
        (plugin_id, key, value),
    )
}

/// Calls `rusqlite::Connection::query_row` for the value of (plugin, key);
/// no row is `None`. (On tables of another schema, a key may match by
/// another collation; nothing is claimed there.)
#[verifier::external_body]
fn get_value(conn: &rusqlite::Connection, plugin_id: &str, key: &str) -> (r: Result<Option<String>, rusqlite::Error>)
    ensures
        own_tables(*conn) ==> (r matches Ok(v) ==> opt_view(v) == (if stored(*conn).contains_key((plugin_id@, key@)) {
            Some(stored(*conn)[(plugin_id@, key@)])
        } else {
            None
        })),
{
    match conn.query_row(
        "SELECT value FROM plugin_storage WHERE plugin_id = ?1 AND key = ?2",
        (plugin_id, key),
        |row| row.get::<_, String>(0),
    ) {
        Ok(v) => Ok(Some(v)),
        Err(rusqlite::Error::QueryReturnedNoRows) => Ok(None),
        Err(e) => Err(e),
    }
}

/// Calls `rusqlite::Connection::execute` with a delete of (plugin, key): on
/// the library's own tables, that pair is gone and nothing else changes; a
/// failed statement changes nothing.
#[verifier::external_body]
fn delete_value(conn: &mut rusqlite::Connection, plugin_id: &str, key: &str) -> (r: Result<usize, rusqlite::Error>)
    ensures
        r is Ok && own_tables(*old(conn)) ==> stored(*final(conn)) == stored(*old(conn)).remove(
            (plugin_id@, key@),
        ),
        r is Ok && own_tables(*old(conn)) ==> launches(*final(conn)) == launches(*old(conn))
            && query_launches(*final(conn)) == query_launches(*old(conn)) && own_tables(*final(conn)),
        r is Err ==> launches(*final(conn)) == launches(*old(conn)) && query_launches(*final(conn))
            == query_launches(*old(conn)) && stored(*final(conn)) == stored(*old(conn)) && own_tables(
            *final(conn),
        ) == own_tables(*old(conn)),
{
    conn.execute("DELETE FROM plugin_storage WHERE plugin_id = ?1 AND key = ?2", (plugin_id, key))
}

/// `entries` are exactly the stored pairs of `plugin_id` whose key starts
/// with `prefix` (taken literally, case-sensitive), in key order.
pub open spec fn listed_pairs(
    entries: Seq<(String, String)>,
    store: Map<(Seq<char>, Seq<char>), Seq<char>>,
    plugin_id: Seq<char>,
    prefix: Seq<char>,
) -> bool {
    &&& forall|i: int|
        0 <= i < entries.len() ==> store.contains_key((plugin_id, (#[trigger] entries[i]).0@))
            && store[(plugin_id, entries[i].0@)] == entries[i].1@ && starts_with(entries[i].0@, prefix)
    &&& forall|k: Seq<char>|
        store.contains_key((plugin_id, k)) && #[trigger] starts_with(k, prefix) ==> exists|i: int|
            0 <= i < entries.len() && (#[trigger] entries[i]).0@ == k
    &&& forall|i: int, j: int|
        0 <= i < j < entries.len() ==> crate::ranking::lex_lt(
            (#[trigger] entries[i]).0@,
            (#[trigger] entries[j]).0@,
        )
}

/// Calls `rusqlite::Statement::query_map` on all key/value pairs of a
/// plugin, ordered by key (SQLite's binary collation, which is code-point
/// order), and collects the rows, stopping at the first row that fails to
/// step or to read as text. On the library's own tables a success lists the
/// plugin's pairs exactly.
#[verifier::external_body]
fn list_values(conn: &rusqlite::Connection, plugin_id: &str) -> (r: Result<Vec<(String, String)>, rusqlite::Error>)
    ensures
        own_tables(*conn) ==> (r matches Ok(v) ==> listed_pairs(v@, stored(*conn), plugin_id@, seq![])),
{
    let mut stmt = conn.prepare("SELECT key, value FROM plugin_storage WHERE plugin_id = ?1 ORDER BY key")?;
    let rows = stmt.query_map((plugin_id,), |row| Ok((row.get::<_, String>(0)?, row.get::<_, String>(1)?)))?;
    rows.collect::<Result<Vec<(String, String)>, rusqlite::Error>>()
}

/// The pairs of `all` (a listing of the plugin's pairs in key order) whose
/// key starts with `prefix`.
fn with_prefix(all: Vec<(String, String)>, prefix: &[char], Ghost(store): Ghost<Map<(Seq<char>, Seq<char>), Seq<char>>>, Ghost(plugin_id): Ghost<Seq<char>>) -> (r: Vec<(String, String)>)
    ensures
        listed_pairs(all@, store, plugin_id, seq![]) ==> listed_pairs(r@, store, plugin_id, prefix@),
{
    let ghost v = all@;
    let ghost mut idx: Seq<int> = seq![];
    let mut out: Vec<(String, String)> = Vec::new();
    let n = all.len();
    let mut rest = all;
    let mut i: usize = 0;
    while rest.len() > 0
        invariant
            n == v.len(),
            i + rest@.len() == n,
            rest@ == v.subrange(i as int, n as int),
            idx.len() == out@.len(),
            forall|a: int| 0 <= a < out@.len() ==> 0 <= #[trigger] idx[a] < i && out@[a] == v[idx[a]],
            forall|a: int, b: int| 0 <= a < b < out@.len() ==> #[trigger] idx[a] < #[trigger] idx[b],
            forall|a: int| 0 <= a < out@.len() ==> starts_with((#[trigger] out@[a]).0@, prefix@),
            forall|j: int|
                0 <= j < i && starts_with((#[trigger] v[j]).0@, prefix@) ==> exists|a: int|
                    0 <= a < out@.len() && idx[a] == j,
        decreases rest@.len(),
    {
        let e = rest.remove(0);
        assert(e == v[i as int]);
        assert(rest@ =~= v.subrange(i + 1, n as int));
        let ghost old_idx = idx;
        let ghost old_len = out@.len();
        let keep = starts_with_exec(&chars_of(e.0.as_str()), prefix);
        if keep {
            proof {
                idx = idx.push(i as int);
            }
            out.push(e);
            assert(idx[out@.len() - 1] == i);
        }
        proof {
            assert forall|j: int|
                0 <= j < i + 1 && starts_with((#[trigger] v[j]).0@, prefix@) implies exists|a: int|
                    0 <= a < out@.len() && idx[a] == j by {
                if j == i {
                    assert(idx[old_len as int] == j);
                } else {
                    let a = choose|a: int| 0 <= a < old_len && old_idx[a] == j;
                    assert(idx[a] == old_idx[a]);
                }
            }
        }
        i = i + 1;
    }
    proof {
        if listed_pairs(v, store, plugin_id, seq![]) {
            assert forall|a: int, b: int| 0 <= a < b < out@.len() implies crate::ranking::lex_lt(
                (#[trigger] out@[a]).0@,
                (#[trigger] out@[b]).0@,
            ) by {
                assert(out@[a] == v[idx[a]] && out@[b] == v[idx[b]]);
                assert(idx[a] < idx[b]);
            }
            assert forall|a: int| 0 <= a < out@.len() implies store.contains_key(
                (plugin_id, (#[trigger] out@[a]).0@),
            ) && store[(plugin_id, out@[a].0@)] == out@[a].1@ && starts_with(out@[a].0@, prefix@) by {
                assert(out@[a] == v[idx[a]]);
            }
            assert forall|k: Seq<char>|
                store.contains_key((plugin_id, k)) && #[trigger] starts_with(k, prefix@) implies exists|a: int|
                    0 <= a < out@.len() && (#[trigger] out@[a]).0@ == k by {
                assert(starts_with(k, seq![])) by {
                    assert(k.subrange(0, 0) =~= Seq::<char>::empty());
                }
                let j = choose|j: int| 0 <= j < v.len() && (#[trigger] v[j]).0@ == k;
                let a = choose|a: int| 0 <= a < out@.len() && idx[a] == j;
                assert(out@[a] == v[j]);
            }
        }
    }
    out
}

/// `rows` are exactly the entries of `m`, each key once.
pub open spec fn rows_of(rows: Seq<(String, i64, i64)>, m: Map<Seq<char>, (i64, i64)>) -> bool {
    &&& forall|i: int|
        0 <= i < rows.len() ==> m.contains_key((#[trigger] rows[i]).0@) && m[rows[i].0@] == (
            rows[i].1,
            rows[i].2,
        )
    &&& forall|k: Seq<char>| #[trigger] m.contains_key(k) ==> exists|i: int| 0 <= i < rows.len() && (#[trigger] rows[i]).0@ == k
    &&& forall|i: int, j: int|
        0 <= i < j < rows.len() ==> (#[trigger] rows[i]).0@ != (#[trigger] rows[j]).0@
}

/// The launches of one normalized query, by history key.
pub open spec fn launches_for(q: Map<(Seq<char>, Seq<char>), (i64, i64)>, query: Seq<char>) -> Map<Seq<char>, (i64, i64)> {
    Map::new(|k: Seq<char>| q.contains_key((query, k)), |k: Seq<char>| q[(query, k)])
}

/// Calls `rusqlite::Statement::query_map` on all of `app_usage` and collects
/// the rows, giving `None` at the first row that fails to step or to read.
/// On the library's own tables a success lists the launches exactly.
#[verifier::external_body]
fn select_launches(conn: &rusqlite::Connection) -> (r: Option<Vec<(String, i64, i64)>>)
    ensures
        own_tables(*conn) ==> (r matches Some(v) ==> rows_of(v@, launches(*conn))),
{
    let mut stmt = conn.prepare("SELECT desktop_file, launch_count, last_used FROM app_usage").ok()?;
    let rows = stmt.query_map((), |row| Ok((row.get::<_, String>(0)?, row.get::<_, i64>(1)?, row.get::<_, i64>(2)?))).ok()?;
    rows.collect::<Result<Vec<(String, i64, i64)>, rusqlite::Error>>().ok()
}

/// Calls `rusqlite::Statement::query_map` on the rows of `query_usage` for
/// one query and collects them, giving `None` at the first row that fails to
/// step or to read. On the library's own tables a success lists that
/// query's launches exactly.
#[verifier::external_body]
fn select_query_launches(conn: &rusqlite::Connection, query: &str) -> (r: Option<Vec<(String, i64, i64)>>)
    ensures
        own_tables(*conn) ==> (r matches Some(v) ==> rows_of(v@, launches_for(query_launches(*conn), query@))),
{
    let mut stmt = conn.prepare("SELECT desktop_file, launch_count, last_used FROM query_usage WHERE query = ?1").ok()?;
    let rows = stmt.query_map((query,), |row| Ok((row.get::<_, String>(0)?, row.get::<_, i64>(1)?, row.get::<_, i64>(2)?))).ok()?;
    rows.collect::<Result<Vec<(String, i64, i64)>, rusqlite::Error>>().ok()
}

/// Calls `rusqlite::Connection::execute` with an upsert into `app_usage`:
/// on the library's own tables, one more launch of `key`, last at `now`, and
/// nothing else changes. (A count that is already the largest integer would
/// overflow into a real number, and on other tables a row that does not read
/// as integers would be updated unseen; nothing is claimed then.)
#[verifier::external_body]
fn count_launch(conn: &mut rusqlite::Connection, key: &str, now: i64) -> (r: Result<usize, rusqlite::Error>)
    ensures
        r is Ok && own_tables(*old(conn)) && can_bump(launches(*old(conn)), key@) ==> launches(
            *final(conn),
        ) == bumped(launches(*old(conn)), key@, now) && own_tables(*final(conn)),
        r is Ok && own_tables(*old(conn)) ==> query_launches(*final(conn)) == query_launches(
            *old(conn),
        ) && stored(*final(conn)) == stored(*old(conn)),
        r is Err ==> launches(*final(conn)) == launches(*old(conn)) && query_launches(*final(conn))
            == query_launches(*old(conn)) && stored(*final(conn)) == stored(*old(conn)) && own_tables(
            *final(conn),
        ) == own_tables(*old(conn)),
{
    conn.execute(
        "INSERT INTO app_usage (desktop_file, launch_count, last_used) VALUES (?1, 1, ?2) ON CONFLICT(desktop_file) DO UPDATE SET launch_count = launch_count + 1, last_used = excluded.last_used",
        (key, now),
    )
}

/// Calls `rusqlite::Connection::execute` with an upsert into `query_usage`:
/// on the library's own tables, one more launch of `key` for `query`, last
/// at `now`, and nothing else changes (nothing claimed at the largest count
/// or on other tables, as above).
#[verifier::external_body]
fn count_query_launch(conn: &mut rusqlite::Connection, query: &str, key: &str, now: i64) -> (r: Result<usize, rusqlite::Error>)
    ensures
        r is Ok && own_tables(*old(conn)) && can_bump(query_launches(*old(conn)), (query@, key@))
            ==> query_launches(*final(conn)) == bumped(query_launches(*old(conn)), (query@, key@), now)
            && own_tables(*final(conn)),
        r is Ok && own_tables(*old(conn)) ==> launches(*final(conn)) == launches(*old(conn)) && stored(
            *final(conn),
        ) == stored(*old(conn)),
        r is Err ==> launches(*final(conn)) == launches(*old(conn)) && query_launches(*final(conn))
            == query_launches(*old(conn)) && stored(*final(conn)) == stored(*old(conn)) && own_tables(
            *final(conn),
        ) == own_tables(*old(conn)),
{
    conn.execute(
        "INSERT INTO query_usage (query, desktop_file, launch_count, last_used) VALUES (?1, ?2, 1, ?3) ON CONFLICT(query, desktop_file) DO UPDATE SET launch_count = launch_count + 1, last_used = excluded.last_used",
        (query, key, now),
    )
}

/// Calls `rusqlite::Connection::transaction`, then `execute_batch` deleting
/// every row of `app_usage` and `query_usage`, then `commit`: on success no
/// launch is recorded any more; plugin storage is not touched. On failure
/// the dropped transaction is rolled back; since that rollback can fail
/// too, nothing is claimed of the launch tables after an error. On tables of
/// another schema (with triggers) nothing is claimed of plugin storage.
#[verifier::external_body]
fn delete_usage(conn: &mut rusqlite::Connection) -> (r: Result<(), rusqlite::Error>)
    ensures
        r is Ok && own_tables(*old(conn)) ==> launches(*final(conn)).is_empty() && query_launches(
            *final(conn),
        ).is_empty() && own_tables(*final(conn)),
        own_tables(*old(conn)) ==> stored(*final(conn)) == stored(*old(conn)),
{
    let tx = conn.transaction()?;
    tx.execute_batch("DELETE FROM app_usage; DELETE FROM query_usage;")?;
    tx.commit()
}

/// The launch history and plugin storage.
pub struct HistoryDb {
    conn: rusqlite::Connection,
}

impl HistoryDb {
    /// Launch count and last launch by history key.
    pub closed spec fn launches(&self) -> Map<Seq<char>, (i64, i64)> {
        launches(self.conn)
    }

    /// Launch count and last launch by (normalized query, history key).
    pub closed spec fn query_launches(&self) -> Map<(Seq<char>, Seq<char>), (i64, i64)> {
        query_launches(self.conn)
    }

    /// Plugin values by (plugin id, key).
    pub closed spec fn stored(&self) -> Map<(Seq<char>, Seq<char>), Seq<char>> {
        stored(self.conn)
    }

    /// The tables are the library's own (see [`own_tables`]): true of a
    /// database that only this library wrote.
    pub closed spec fn own_tables(&self) -> bool {
        own_tables(self.conn)
    }

    /// A database over `conn`, its tables created where missing.
    pub fn from_connection(conn: rusqlite::Connection) -> (r: Result<Self, String>)
        ensures
            r matches Ok(db) ==> db.launches() == launches(conn) && db.query_launches()
                == query_launches(conn) && db.stored() == stored(conn) && (own_tables(conn)
                ==> db.own_tables()),
    {
        let mut conn = conn;
        match create_tables(&mut conn) {
            Ok(()) => Ok(HistoryDb { conn }),
            Err(e) => Err(error_text(&e)),
        }
    }

    /// A fresh database in memory, with nothing recorded.
    pub fn open_in_memory() -> (r: Result<Self, String>)
        ensures
            r matches Ok(db) ==> db.launches().is_empty() && db.query_launches().is_empty()
                && db.stored().is_empty() && db.own_tables(),
    {
        match memory_connection() {
            Ok(conn) => HistoryDb::from_connection(conn),
            Err(e) => Err(error_text(&e)),
        }
    }

    /// Forget every recorded launch; plugin storage stays.
    pub fn clear_history(&mut self) -> (r: Result<(), String>)
        ensures
            r is Ok && old(self).own_tables() ==> final(self).launches().is_empty() && final(self).query_launches().is_empty() && final(self).own_tables(),
            old(self).own_tables() ==> final(self).stored() == old(self).stored(),
    {
        match delete_usage(&mut self.conn) {
            Ok(()) => Ok(()),
            Err(e) => Err(error_text(&e)),
        }
    }

    /// Persist a value for a plugin, replacing the one under the same key.
    pub fn storage_set(&mut self, plugin_id: &str, key: &str, value: &str) -> (r: Result<(), String>)
        ensures
            r is Ok && old(self).own_tables() ==> final(self).stored() == old(self).stored().insert(
                (plugin_id@, key@),
                value@,
            ),
            r is Err ==> final(self).stored() == old(self).stored(),
            old(self).own_tables() ==> final(self).launches() == old(self).launches()
                && final(self).query_launches() == old(self).query_launches() && final(self).own_tables(),
    {
        match put_value(&mut self.conn, plugin_id, key, value) {
            Ok(_) => Ok(()),
            Err(e) => Err(error_text(&e)),
        }
    }

    /// The value a plugin stored under `key`, if any.
    pub fn storage_get(&self, plugin_id: &str, key: &str) -> (r: Result<Option<String>, String>)
        ensures
            self.own_tables() ==> (r matches Ok(v) ==> opt_view(v) == (if self.stored().contains_key((plugin_id@, key@)) {
                Some(self.stored()[(plugin_id@, key@)])
            } else {
                None
            })),
    {
        match get_value(&self.conn, plugin_id, key) {
            Ok(v) => Ok(v),
            Err(e) => Err(error_text(&e)),
        }
    }

    /// Forget a plugin's value under `key`.
    pub fn storage_delete(&mut self, plugin_id: &str, key: &str) -> (r: Result<(), String>)
        ensures
            r is Ok && old(self).own_tables() ==> final(self).stored() == old(self).stored().remove(
                (plugin_id@, key@),
            ),
            r is Err ==> final(self).stored() == old(self).stored(),
            old(self).own_tables() ==> final(self).launches() == old(self).launches()
                && final(self).query_launches() == old(self).query_launches() && final(self).own_tables(),
    {
        match delete_value(&mut self.conn, plugin_id, key) {
            Ok(_) => Ok(()),
            Err(e) => Err(error_text(&e)),
        }
    }

    /// A plugin's key/value pairs whose key starts with `prefix` taken
    /// literally (all of them without a prefix), in key order.
    pub fn storage_list(&self, plugin_id: &str, prefix: Option<&str>) -> (r: Result<Vec<(String, String)>, String>)
        ensures
            self.own_tables() ==> (r matches Ok(v) ==> listed_pairs(
                v@,
                self.stored(),
                plugin_id@,
                match prefix {
                    Some(p) => p@,
                    None => seq![],
                },
            )),
    {
        let p = match prefix {
            Some(p) => chars_of(p),
            None => Vec::new(),
        };
        match list_values(&self.conn, plugin_id) {
            Ok(v) => Ok(with_prefix(v, &p, Ghost(self.stored()), Ghost(plugin_id@))),
            Err(e) => Err(error_text(&e)),
        }
    }

    /// Launch counts for ranking a query: all global counts, and the counts
    /// for the normalized query (none for a blank one). A table that cannot
    /// be read contributes nothing.
    pub fn snapshot(&self, query: &str) -> (s: StatsSnapshot)
        ensures
            self.own_tables() ==> (s.global_view() == self.launches() || s.global_view() == Map::<
                Seq<char>,
                (i64, i64),
            >::empty()),
            normalized_query(query@).len() == 0 ==> s.query_view() == Map::<Seq<char>, (i64, i64)>::empty(),
            normalized_query(query@).len() > 0 && self.own_tables() ==> (s.query_view() == launches_for(
                self.query_launches(),
                normalized_query(query@),
            ) || s.query_view() == Map::<Seq<char>, (i64, i64)>::empty()),
    {
        let global = select_launches(&self.conn);
        let normalized = normalize_query(query);
        let per_query = if normalized.as_str().is_empty() {
            None
        } else {
            select_query_launches(&self.conn, normalized.as_str())
        };
        proof {
            if let Some(rows) = &global {
                if own_tables(self.conn) {
                    lemma_counts_of_distinct_rows(rows@, launches(self.conn));
                }
            }
            if let Some(rows) = &per_query {
                if own_tables(self.conn) {
                    lemma_counts_of_distinct_rows(
                        rows@,
                        launches_for(query_launches(self.conn), normalized_query(query@)),
                    );
                }
            }
        }
        StatsSnapshot::from_rows(global, per_query)
    }

    /// Count one launch of history key `key` for `query` at time `now`:
    /// globally, and for the normalized query unless it is blank.
    pub fn record_launch_at(&mut self, query: &str, key: &str, now: i64) -> (r: Result<(), String>)
        ensures
            old(self).own_tables() && can_bump(old(self).launches(), key@) ==> final(self).stored()
                == old(self).stored(),
            r is Ok && old(self).own_tables() && can_bump(old(self).launches(), key@) ==> final(self).launches() == bumped(old(self).launches(), key@, now),
            r is Ok && old(self).own_tables() && can_bump(old(self).launches(), key@)
                && normalized_query(query@).len() > 0 && can_bump(
                old(self).query_launches(),
                (normalized_query(query@), key@),
            ) ==> final(self).query_launches() == bumped(
                old(self).query_launches(),
                (normalized_query(query@), key@),
                now,
            ) && final(self).own_tables(),
            old(self).own_tables() && normalized_query(query@).len() == 0 ==> final(self).query_launches() == old(self).query_launches(),
            r is Ok && old(self).own_tables() && can_bump(old(self).launches(), key@)
                && normalized_query(query@).len() == 0 ==> final(self).own_tables(),
    {
        match count_launch(&mut self.conn, key, now) {
            Ok(_) => {},
            Err(e) => return Err(error_text(&e)),
        }
        let normalized = normalize_query(query);
        if !normalized.as_str().is_empty() {
            match count_query_launch(&mut self.conn, normalized.as_str(), key, now) {
                Ok(_) => {},
                Err(e) => return Err(error_text(&e)),
            }
        }
        Ok(())
    }

    /// Count one launch of `key` for `query`, now.
    pub fn record_launch(&mut self, query: &str, key: &str) -> (r: Result<(), String>)
        ensures
            old(self).own_tables() && can_bump(old(self).launches(), key@) ==> final(self).stored()
                == old(self).stored(),
            exists|now: i64|
                #[trigger] launch_recorded(
                    old(self).launches(),
                    old(self).query_launches(),
                    final(self).launches(),
                    final(self).query_launches(),
                    query@,
                    key@,
                    now,
                    r is Ok,
                    old(self).own_tables(),
                ),
            old(self).own_tables() && normalized_query(query@).len() == 0 ==> final(self).query_launches() == old(self).query_launches(),
    {
        let now = unix_now();
        let r = self.record_launch_at(query, key, now);
        assert(launch_recorded(
            old(self).launches(),
            old(self).query_launches(),
            self.launches(),
            self.query_launches(),
            query@,
            key@,
            now,
            r is Ok,
                    old(self).own_tables(),
        ));
        r
    }
}

/// The launch of `key` for `query` at `now` is counted (when the recording
/// succeeded, `ok`, on the library's own tables, `own`, and the counts could
/// grow).
pub open spec fn launch_recorded(
    global: Map<Seq<char>, (i64, i64)>,
    per_query: Map<(Seq<char>, Seq<char>), (i64, i64)>,
    global_after: Map<Seq<char>, (i64, i64)>,
    per_query_after: Map<(Seq<char>, Seq<char>), (i64, i64)>,
    query: Seq<char>,
    key: Seq<char>,
    now: i64,
    ok: bool,
    own: bool,
) -> bool {
    &&& (ok && own && can_bump(global, key) ==> global_after == bumped(global, key, now))
    &&& (ok && own && can_bump(global, key) && normalized_query(query).len() > 0 && can_bump(
        per_query,
        (normalized_query(query), key),
    ) ==> per_query_after == bumped(per_query, (normalized_query(query), key), now))
}

/// What a plugin reads back is what it last wrote under the same key, and
/// writing one plugin's key leaves every other plugin's and key's value as it
/// was.
pub proof fn lemma_storage_reads_back_writes(
    before: Map<(Seq<char>, Seq<char>), Seq<char>>,
    plugin_id: Seq<char>,
    key: Seq<char>,
    value: Seq<char>,
    other: (Seq<char>, Seq<char>),
)
    ensures
        before.insert((plugin_id, key), value).contains_key((plugin_id, key)),
        before.insert((plugin_id, key), value)[(plugin_id, key)] == value,
        other != (plugin_id, key) ==> (before.insert((plugin_id, key), value).contains_key(other)
            == before.contains_key(other) && before.insert((plugin_id, key), value)[other]
            == before[other]),
        !before.remove((plugin_id, key)).contains_key((plugin_id, key)),
        other != (plugin_id, key) ==> (before.remove((plugin_id, key)).contains_key(other)
            == before.contains_key(other) && before.remove((plugin_id, key))[other] == before[other]),
{
}

/// Two launches of a key count twice, and the last one is its time.
pub proof fn lemma_launches_accumulate<K>(m: Map<K, (i64, i64)>, k: K, t1: i64, t2: i64)
    requires
        can_bump(m, k),
        m.contains_key(k) ==> m[k].0 < i64::MAX - 1,
    ensures
        can_bump(bumped(m, k, t1), k),
        bumped(bumped(m, k, t1), k, t2)[k] == (if m.contains_key(k) {
            ((m[k].0 + 2) as i64, t2)
        } else {
            (2i64, t2)
        }),
{
}

} // verus!
