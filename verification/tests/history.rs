use nursearch::history::HistoryDb;

#[test]
fn db_records_global_and_query_usage() {
    let mut db = HistoryDb::open_in_memory().unwrap();
    db.record_launch("  Term  ", "/tmp/terminal.desktop").unwrap();
    db.record_launch("term", "/tmp/terminal.desktop").unwrap();

    let stats = db.snapshot("TERM").stats_for("/tmp/terminal.desktop");
    assert_eq!(stats.global_count, 2);
    assert_eq!(stats.query_count, 2);
    assert!(stats.global_last_used > 0);
    assert!(stats.query_last_used > 0);
}

#[test]
fn db_ignores_empty_query_usage() {
    let mut db = HistoryDb::open_in_memory().unwrap();
    db.record_launch("   ", "/tmp/terminal.desktop").unwrap();

    let stats = db.snapshot("").stats_for("/tmp/terminal.desktop");
    assert_eq!(stats.global_count, 1);
    assert_eq!(stats.query_count, 0);
}

#[test]
fn plugin_storage_round_trips_and_isolates_by_plugin() {
    let mut db = HistoryDb::open_in_memory().unwrap();
    db.storage_set("plugin.a", "entry:1", "hello").unwrap();
    db.storage_set("plugin.a", "entry:2", "world").unwrap();
    db.storage_set("plugin.b", "entry:1", "other").unwrap();

    assert_eq!(db.storage_get("plugin.a", "entry:1").unwrap().as_deref(), Some("hello"));
    assert_eq!(db.storage_get("plugin.a", "missing").unwrap(), None);

    let listed = db.storage_list("plugin.a", Some("entry:")).unwrap();
    assert_eq!(listed.len(), 2);

    db.storage_delete("plugin.a", "entry:1").unwrap();
    assert_eq!(db.storage_get("plugin.a", "entry:1").unwrap(), None);
    // plugin.b is unaffected.
    assert_eq!(db.storage_get("plugin.b", "entry:1").unwrap().as_deref(), Some("other"));
}

#[test]
fn storage_list_prefix_matches_literally() {
    let mut db = HistoryDb::open_in_memory().unwrap();
    db.storage_set("p", "a%b", "1").unwrap();
    db.storage_set("p", "axb", "2").unwrap();
    db.storage_set("p", "a_c", "3").unwrap();

    // "a%" is a literal prefix, so it must match only "a%b", not "axb".
    let listed = db.storage_list("p", Some("a%")).unwrap();
    assert_eq!(listed, vec![("a%b".to_string(), "1".to_string())]);
}

#[test]
fn storage_overwrites_and_lists_in_key_order() {
    let mut db = HistoryDb::open_in_memory().unwrap();
    db.storage_set("p", "b", "1").unwrap();
    db.storage_set("p", "a", "2").unwrap();
    db.storage_set("p", "b", "3").unwrap();
    assert_eq!(
        db.storage_list("p", None).unwrap(),
        vec![("a".to_string(), "2".to_string()), ("b".to_string(), "3".to_string())]
    );
}

#[test]
fn clearing_history_forgets_launches_but_keeps_storage() {
    let mut db = HistoryDb::open_in_memory().unwrap();
    db.record_launch("fire", "firefox.desktop").unwrap();
    db.storage_set("clip", "history", "[]").unwrap();
    db.clear_history().unwrap();
    let snap = db.snapshot("fire");
    assert_eq!(snap.stats_for("firefox.desktop").global_count, 0);
    assert_eq!(db.storage_get("clip", "history").unwrap().as_deref(), Some("[]"));
}

#[test]
fn storage_prefix_is_case_sensitive() {
    let mut db = HistoryDb::open_in_memory().unwrap();
    db.storage_set("p", "Abc", "1").unwrap();
    db.storage_set("p", "abd", "2").unwrap();
    db.storage_set("q", "abe", "3").unwrap();
    assert_eq!(db.storage_list("p", Some("ab")).unwrap(), vec![("abd".to_string(), "2".to_string())]);
    assert_eq!(db.storage_list("p", Some("A")).unwrap(), vec![("Abc".to_string(), "1".to_string())]);
}

#[test]
fn unreadable_rows_end_the_read_instead_of_looping() {
    let conn = rusqlite::Connection::open_in_memory().unwrap();
    conn.execute_batch(
        "CREATE TABLE app_usage (desktop_file TEXT PRIMARY KEY, launch_count INTEGER NOT NULL DEFAULT 0, last_used INTEGER NOT NULL DEFAULT 0);
         INSERT INTO app_usage VALUES ('/a.desktop', 2.5, 10);
         INSERT INTO app_usage VALUES ('/b.desktop', 3, 20);",
    )
    .unwrap();
    let db = HistoryDb::from_connection(conn).unwrap();
    let snap = db.snapshot("");
    assert_eq!(snap.stats_for("/b.desktop").global_count, 0);
    assert_eq!(snap.stats_for("/a.desktop").global_count, 0);
}

#[test]
fn a_fresh_database_counts_first_launches_from_one() {
    let mut db = HistoryDb::open_in_memory().unwrap();
    db.record_launch_at("Fire", "/f.desktop", 100).unwrap();
    db.record_launch_at("fire", "/f.desktop", 200).unwrap();
    let s = db.snapshot("FIRE").stats_for("/f.desktop");
    assert_eq!((s.global_count, s.global_last_used, s.query_count, s.query_last_used), (2, 200, 2, 200));
}
