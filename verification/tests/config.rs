use nursearch::config::{fnv1a, is_legacy_default, Position, Quicklink, SearchSettings, Settings, WindowSettings};

fn link(keyword: &str, url: &str) -> Quicklink {
    Quicklink { keyword: keyword.into(), name: "N".into(), url: url.into(), icon: None }
}

#[test]
fn partial_settings_keep_defaults_and_clamp() {
    let mut settings = Settings::default();
    settings.search.max_results = 500;
    settings.window.position = Position::Top;
    let settings = settings.sanitize();
    assert_eq!(settings.search.max_results, 50);
    assert_eq!(settings.window.position, Position::Top);
    assert_eq!(settings.window.width, 720);
    assert!(Settings::default().sanitize().quicklinks.is_empty());
}

#[test]
fn defaults() {
    assert_eq!(WindowSettings::default(), WindowSettings { position: Position::Center, width: 720, top_margin: 160 });
    assert_eq!(SearchSettings::default().max_results, 12);
}

#[test]
fn window_values_are_clamped() {
    let mut settings = Settings::default();
    settings.window.width = 10;
    settings.window.top_margin = -5;
    settings.search.max_results = 0;
    let s = settings.sanitize();
    assert_eq!((s.window.width, s.window.top_margin, s.search.max_results), (360, 0, 1));
    let mut settings = Settings::default();
    settings.window.width = 9000;
    settings.window.top_margin = 9000;
    let s = settings.sanitize();
    assert_eq!((s.window.width, s.window.top_margin), (2000, 2000));
}

#[test]
fn quicklinks_are_cleaned() {
    let mut settings = Settings::default();
    settings.quicklinks = vec![link(" AW ", "https://a/{query}"), link("  ", "https://b"), link("x", " ")];
    let s = settings.sanitize();
    assert_eq!(s.quicklinks.len(), 1);
    assert_eq!(s.quicklinks[0].keyword, "aw");
}

#[test]
fn fnv1a_known_values() {
    assert_eq!(fnv1a(b""), 0xcbf29ce484222325);
    assert_eq!(fnv1a(b"a"), 0xaf63dc4c8601ec8c);
    assert_eq!(fnv1a(b"foobar"), 0x85944171f73967e8);
    assert!(!is_legacy_default(b"/* user overrides */\n"));
}
