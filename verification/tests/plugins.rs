use nursearch::plugins::desktop::parse_uint_result;
use nursearch::plugins::kdeconnect::parse_device_line;
use nursearch::plugins::network::{is_safe_ssid, parse_wifi_line, unescape_terse, wifi_networks};
use nursearch::plugins::systemd::{is_protected, parse_service_line};
use nursearch::plugins::web::{url_encode, web_results};
use nursearch::plugins::windows::{is_stale, window_items, CACHE_TTL_MS};

#[test]
fn parse_busctl_uint_result() {
    assert_eq!(parse_uint_result("u 42\n"), Some(42));
    assert_eq!(parse_uint_result("u 0"), Some(0));
    assert_eq!(parse_uint_result("b false"), None);
    assert_eq!(parse_uint_result(""), None);
}

#[test]
fn uint_result_edges() {
    assert_eq!(parse_uint_result("u +7"), Some(7));
    assert_eq!(parse_uint_result("u 4294967295"), Some(4294967295));
    assert_eq!(parse_uint_result("u 4294967296"), None);
    assert_eq!(parse_uint_result("u -1"), None);
    assert_eq!(parse_uint_result("u 1x"), None);
}

#[test]
fn parses_device_line() {
    let line = "abc123def456 My Phone";
    let (id, name) = parse_device_line(line).unwrap();
    assert_eq!(id, "abc123def456");
    assert_eq!(name, "My Phone");
    assert_eq!(parse_device_line("   "), None);
    assert_eq!(parse_device_line("lonely"), None);
}

#[test]
fn parses_wifi_list_line_connected() {
    let line = "*:MyNetwork";
    let (ssid, in_use) = parse_wifi_line(line).unwrap();
    assert!(in_use);
    assert_eq!(ssid, "MyNetwork");
}

#[test]
fn parses_wifi_list_line_disconnected() {
    let line = ":OtherNetwork";
    let (ssid, in_use) = parse_wifi_line(line).unwrap();
    assert!(!in_use);
    assert_eq!(ssid, "OtherNetwork");
}

#[test]
fn rejects_option_like_ssids_and_unescapes_terse_output() {
    assert!(!is_safe_ssid("--ask"));
    assert!(!is_safe_ssid("-x"));
    assert!(is_safe_ssid("Gustav"));
    assert_eq!(unescape_terse("Cafe\\:Gast"), "Cafe:Gast");
    assert_eq!(unescape_terse("a\\\\b"), "a\\b");
}

#[test]
fn wifi_list_keeps_each_network_once() {
    let lines: Vec<String> =
        [" :Home", "*:Home", "*:Cafe\\:Gast", ":--ask", "garbage", ":"].iter().map(|s| s.to_string()).collect();
    let nets = wifi_networks(&lines);
    assert_eq!(nets, vec![("Home".to_string(), false), ("Cafe:Gast".to_string(), true)]);
}

#[test]
fn parses_running_service_line() {
    let line = "app-org.kde.dolphin@abc.service  loaded  active  running  Dolphin - File Manager";
    let info = parse_service_line(line).unwrap();
    assert_eq!(info.name, "app-org.kde.dolphin@abc.service");
    assert_eq!(info.active, "active");
    assert_eq!(info.sub, "running");
    assert_eq!(info.description, "Dolphin - File Manager");
}

#[test]
fn parses_inactive_service_line() {
    let line = "arch-update.service  loaded  inactive  dead  Run arch-update auto check";
    let info = parse_service_line(line).unwrap();
    assert_eq!(info.name, "arch-update.service");
    assert_eq!(info.active, "inactive");
}

#[test]
fn parses_bullet_prefixed_line() {
    let line = "●arch-update-tray.service  not-found  inactive  dead  arch-update-tray.service";
    let info = parse_service_line(line).unwrap();
    assert_eq!(info.name, "arch-update-tray.service");
}

#[test]
fn short_service_lines_are_rejected() {
    assert!(parse_service_line("a b c").is_none());
    assert!(parse_service_line("● b c d").is_none());
    let info = parse_service_line("x.service loaded active running").unwrap();
    assert_eq!(info.description, "");
}

#[test]
fn protected_units_are_identified() {
    assert!(is_protected("app-org.kde.dolphin@abc.service"));
    assert!(is_protected("pipewire.service"));
    assert!(is_protected("plasma-kwin_wayland.service"));
    assert!(!is_protected("arch-update.service"));
}

#[test]
fn encodes_spaces_and_specials() {
    assert_eq!(url_encode("rust traits"), "rust%20traits");
    assert_eq!(url_encode("a&b"), "a%26b");
}

#[test]
fn web_search_offers_each_engine() {
    assert!(web_results("   ").is_empty());
    let items = web_results(" rust traits ");
    assert_eq!(items.len(), 3);
    assert_eq!(items[0].id, "Google");
    assert_eq!(items[0].title, "Search Google for “rust traits”");
    assert_eq!(items[0].command_id, "https://www.google.com/search?q=rust%20traits");
    assert_eq!(items[0].score, 6000);
    assert_eq!(items[2].score, 5998);
}

#[test]
fn cache_is_reused_within_ttl() {
    let fetched_at = std::time::Instant::now();
    assert!(!is_stale(fetched_at.elapsed().as_millis()));
}

#[test]
fn cache_expires_after_ttl() {
    let old = std::time::Instant::now()
        - std::time::Duration::from_millis(CACHE_TTL_MS as u64)
        - std::time::Duration::from_millis(100);
    assert!(is_stale(old.elapsed().as_millis()));
}

#[test]
fn windows_filter_by_title() {
    let windows = vec![
        ("1".to_string(), "Firefox — Docs".to_string()),
        ("2".to_string(), "Konsole".to_string()),
    ];
    let items = window_items(&windows, " FIRE ");
    assert_eq!(items.len(), 1);
    assert_eq!(items[0].command_id, "1");
    assert_eq!(window_items(&windows, "").len(), 2);
}

#[test]
fn wifi_list_keeps_line_order() {
    let lines: Vec<String> = [":Zeta", "*:Alpha", ":Mid", ":Zeta"].iter().map(|s| s.to_string()).collect();
    let nets = wifi_networks(&lines);
    assert_eq!(
        nets,
        vec![("Zeta".to_string(), false), ("Alpha".to_string(), true), ("Mid".to_string(), false)]
    );
}
