use nursearch::desktop::DesktopEntry;
use nursearch::rank::app_match_score;

fn entry() -> DesktopEntry {
    DesktopEntry {
        name: "Firefox".into(),
        generic_name: Some("Web Browser".into()),
        comment: None,
        keywords: vec!["internet".into(), "www".into()],
        exec_line: Some("firefox".into()),
        icon: None,
        path: "/tmp/firefox.desktop".into(),
        dbus_activatable: false,
        terminal: false,
    }
}

#[test]
fn search_text_joins_metadata() {
    assert_eq!(entry().search_text(), "Web Browser internet www");
    let copy = entry().duplicate();
    assert_eq!(copy.keywords, vec!["internet".to_string(), "www".to_string()]);
}

#[test]
fn metadata_matches_score_below_name_matches() {
    let e = entry();
    assert_eq!(app_match_score(&e, "firefox"), Some(10000));
    let meta = app_match_score(&e, "internet").unwrap();
    assert!(meta < 8000 - 2500);
}
