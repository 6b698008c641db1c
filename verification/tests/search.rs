use nursearch::history::HistoryDb;
use nursearch::desktop::DesktopEntry;
use nursearch::i18n::Lang;
use nursearch::proto::ResultItem;
use nursearch::search::{
    finalize, result_from_plugin, search, Action, Kind, SearchResult, MAX_RESULTS,
};

fn test_app(
    name: &str,
    generic_name: Option<&str>,
    comment: Option<&str>,
    keywords: &[&str],
    path: &str,
) -> DesktopEntry {
    DesktopEntry {
        name: name.to_string(),
        generic_name: generic_name.map(ToOwned::to_owned),
        comment: comment.map(ToOwned::to_owned),
        keywords: keywords.iter().map(|keyword| keyword.to_string()).collect(),
        exec_line: Some(name.to_lowercase()),
        icon: None,
        path: path.to_string(),
        dbus_activatable: false,
        terminal: false,
    }
}


#[test]
fn ranks_apps_by_desktop_metadata() {
    let apps = vec![test_app(
        "Firefox",
        Some("Web Browser"),
        Some("Browse the web"),
        &["internet"],
        "/tmp/firefox.desktop",
    )];
    let results = search(&apps, "internet", &HistoryDb::open_in_memory().unwrap().snapshot("internet"), Lang::En);
    assert_eq!(results.len(), 1);
    assert_eq!(results[0].title, "Firefox");
}

#[test]
fn exact_app_name_beats_shorter_prefix_match_with_metadata() {
    let apps = vec![
        test_app(
            "Term",
            Some("Terminal Emulator"),
            Some("A long comment that used to reduce exact-name score"),
            &["shell", "console"],
            "/tmp/term.desktop",
        ),
        test_app("Terminal", None, None, &[], "/tmp/terminal.desktop"),
    ];
    let results = search(&apps, "term", &HistoryDb::open_in_memory().unwrap().snapshot("term"), Lang::En);
    assert_eq!(results[0].title, "Term");
}

#[test]
fn calculator_result_sits_on_top() {
    let apps = vec![test_app("Calc App", None, None, &[], "/tmp/calc.desktop")];
    let results = search(&apps, "2+2", &HistoryDb::open_in_memory().unwrap().snapshot("2+2"), Lang::En);
    assert_eq!(results[0].kind, Kind::Calculator);
    assert_eq!(results[0].title, "4");
    assert_eq!(results[0].score, 11000);
    assert!(matches!(&results[0].action, Action::Copy(v) if v == "4"));
}

#[test]
fn system_command_matches_keyword() {
    let results = search(&[], "sperren", &HistoryDb::open_in_memory().unwrap().snapshot("sperren"), Lang::En);
    assert!(results.iter().any(|result| result.kind == Kind::System
        && matches!(&result.action, Action::Run(cmd) if cmd.first().map(String::as_str) == Some("loginctl"))));
}

#[test]
fn partial_word_inside_system_keyword_does_not_match() {
    let apps = vec![test_app(
        "Ghostty",
        None,
        Some("A terminal emulator"),
        &["terminal", "tty", "pty"],
        "/tmp/ghostty.desktop",
    )];
    let results = search(&apps, "ter", &HistoryDb::open_in_memory().unwrap().snapshot("ter"), Lang::En);
    assert!(results.iter().all(|result| result.kind != Kind::System));
    assert_eq!(results[0].title, "Ghostty");
}

#[test]
fn keyword_word_start_beats_mid_word_name_match() {
    let apps = vec![
        test_app("Info Center", None, None, &[], "/tmp/info.desktop"),
        test_app(
            "Ghostty",
            None,
            Some("A terminal emulator"),
            &["terminal", "tty", "pty"],
            "/tmp/ghostty.desktop",
        ),
    ];
    let results = search(&apps, "ter", &HistoryDb::open_in_memory().unwrap().snapshot("ter"), Lang::En);
    assert_eq!(results[0].title, "Ghostty");
}

#[test]
fn app_name_prefix_outranks_system_keyword_prefix() {
    let apps = vec![test_app("Restic Browser", None, None, &[], "/tmp/restic.desktop")];
    let results = search(&apps, "res", &HistoryDb::open_in_memory().unwrap().snapshot("res"), Lang::En);
    assert_eq!(results[0].title, "Restic Browser");
    assert!(results.iter().any(|result| result.kind == Kind::System));
}

#[test]
fn plugin_result_gets_usage_boost() {
    let item = ResultItem {
        id: "abc".to_string(),
        title: "Thing".to_string(),
        subtitle: None,
        icon: None,
        score: 100,
        command_id: "open".to_string(),
        actions: Vec::new(),
    };

    // Cold: no history, so the score is just the plugin's own hint.
    let mut db = HistoryDb::open_in_memory().unwrap();
    let cold = result_from_plugin("p", "Plugin", item.clone(), &db.snapshot("q"));
    assert_eq!(cold.score, 100);
    assert_eq!(cold.history_key.as_deref(), Some("plugin:p:abc"));
    assert_eq!(cold.kind, Kind::Plugin("Plugin".to_string()));

    // After recording a launch under the item's synthetic history key for
    // query "q", the same item ranks higher.
    db.record_launch("q", "plugin:p:abc").unwrap();
    let warm = result_from_plugin("p", "Plugin", item, &db.snapshot("q"));
    assert!(warm.score > 100, "expected a usage boost, got {}", warm.score);
}

#[test]
fn usage_history_boosts_query_specific_match() {
    let apps = vec![
        test_app("Termite", None, None, &[], "/tmp/termite.desktop"),
        test_app("Terminal", None, None, &[], "/tmp/terminal.desktop"),
    ];

    // Without history "Termite" (shorter name) edges out "Terminal".
    let cold_results = search(&apps, "term", &HistoryDb::open_in_memory().unwrap().snapshot("term"), Lang::En);
    assert_eq!(cold_results[0].title, "Termite");

    // After launching "Terminal" for this query, it should rank first.
    let mut warm = HistoryDb::open_in_memory().unwrap();
    warm.record_launch("term", "/tmp/terminal.desktop").unwrap();
    let warm_results = search(&apps, "term", &warm.snapshot("term"), Lang::En);
    assert_eq!(warm_results[0].title, "Terminal");
}

fn row(title: &str, score: i64) -> SearchResult {
    SearchResult {
        title: title.to_string(),
        subtitle: None,
        icon: None,
        kind: Kind::App,
        score,
        history_key: None,
        action: Action::Copy(title.to_string()),
    }
}

#[test]
fn finalize_orders_by_score_then_title_and_caps() {
    let mut rows = Vec::new();
    for i in 0..20 {
        rows.push(row(&format!("item {i:02}"), (i % 5) as i64));
    }
    rows.push(row("Beta", 10));
    rows.push(row("alpha", 10));
    let ranked = finalize(rows);
    assert_eq!(ranked.len(), MAX_RESULTS);
    assert_eq!(ranked[0].title, "alpha");
    assert_eq!(ranked[1].title, "Beta");
    for pair in ranked.windows(2) {
        assert!(pair[0].score >= pair[1].score);
    }
}

#[test]
fn finalize_keeps_ties_in_incoming_order() {
    let ranked = finalize(vec![row("Same", 5), row("same", 5), row("SAME", 5)]);
    let titles: Vec<&str> = ranked.iter().map(|r| r.title.as_str()).collect();
    assert_eq!(titles, vec!["Same", "same", "SAME"]);
}

#[test]
fn blank_query_lists_only_apps() {
    let apps = vec![test_app("Zed", None, None, &[], "/tmp/zed.desktop")];
    let results = search(&apps, "   ", &HistoryDb::open_in_memory().unwrap().snapshot("   "), Lang::En);
    assert_eq!(results.len(), 1);
    assert_eq!(results[0].kind, Kind::App);
    assert_eq!(results[0].score, 1000);
}

#[test]
fn badges() {
    assert_eq!(Kind::App.badge(Lang::En), None);
    assert_eq!(Kind::Calculator.badge(Lang::De), Some("=".to_string()));
    assert_eq!(Kind::System.badge(Lang::De), Some("System".to_string()));
    assert_eq!(Kind::Plugin("Web".into()).badge(Lang::En), Some("Web".to_string()));
}

#[test]
fn finalizing_twice_changes_nothing() {
    let mut rows = Vec::new();
    for i in 0..15 {
        rows.push(row(&format!("Item {}", 15 - i), (i % 4) as i64));
    }
    rows.push(row("same", 2));
    rows.push(row("Same", 2));
    let once = finalize(rows);
    let titles = |v: &Vec<SearchResult>| v.iter().map(|r| (r.title.clone(), r.score)).collect::<Vec<_>>();
    let twice = finalize(once.clone());
    assert_eq!(titles(&twice), titles(&once));
}
