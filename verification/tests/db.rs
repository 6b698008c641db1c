use nursearch::db::{normalize_query, StatsSnapshot};

#[test]
fn queries_are_trimmed_and_lowercased() {
    assert_eq!(normalize_query("  Term  "), "term");
    assert_eq!(normalize_query("TERM"), "term");
    assert_eq!(normalize_query("   "), "");
}

#[test]
fn snapshot_reports_recorded_counts() {
    let mut snapshot = StatsSnapshot::new();
    snapshot.insert_global("/tmp/terminal.desktop", 3, 100);
    snapshot.insert_query("/tmp/terminal.desktop", 1, 90);
    snapshot.insert_global("/tmp/terminal.desktop", 4, 120);
    let stats = snapshot.stats_for("/tmp/terminal.desktop");
    assert_eq!(stats.global_count, 4);
    assert_eq!(stats.global_last_used, 120);
    assert_eq!(stats.query_count, 1);
    assert_eq!(stats.query_last_used, 90);
    let other = snapshot.stats_for("/tmp/other.desktop");
    assert_eq!((other.global_count, other.query_count), (0, 0));
}


#[test]
fn snapshot_from_rows_reads_rows_and_unreadable_as_none() {
    let rows = vec![("/a.desktop".to_string(), 3, 100), ("/b.desktop".to_string(), 1, 50)];
    let per_query = vec![("/a.desktop".to_string(), 2, 90)];
    let s = StatsSnapshot::from_rows(Some(rows.clone()), Some(per_query));
    let a = s.stats_for("/a.desktop");
    assert_eq!((a.global_count, a.global_last_used, a.query_count, a.query_last_used), (3, 100, 2, 90));
    let b = s.stats_for("/b.desktop");
    assert_eq!((b.global_count, b.query_count), (1, 0));
    let empty = StatsSnapshot::from_rows(None, None);
    assert_eq!(empty.stats_for("/a.desktop").global_count, 0);
    let only_global = StatsSnapshot::from_rows(Some(rows), None);
    assert_eq!(only_global.stats_for("/a.desktop").query_count, 0);
}
