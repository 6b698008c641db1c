use nursearch::classic::{clean_exec, command_argv, parse_bool, parse_desktop_file, rank_apps, sort_by_name, DesktopEntry};
use nursearch::db::UsageStats;

const FIREFOX: &str = "[Desktop Entry]\nType=Application\nName=Firefox\nExec=firefox %u\nIcon=firefox\n\n[Desktop Action new-window]\nName=New Window\nExec=firefox --new-window %u\n";

#[test]
fn reads_the_main_entry_only() {
    let app = parse_desktop_file(FIREFOX, "/usr/share/applications/firefox.desktop").unwrap();
    assert_eq!(app.name, "Firefox");
    assert_eq!(app.exec_line, "firefox");
    assert_eq!(app.icon.as_deref(), Some("firefox"));
    assert_eq!(app.path, "/usr/share/applications/firefox.desktop");
}

#[test]
fn hidden_and_non_applications_are_skipped() {
    let hidden = "[Desktop Entry]\r\nType=Application\r\nName=X\r\nExec=x\r\nNoDisplay=TRUE\r\n";
    assert!(parse_desktop_file(hidden, "/x.desktop").is_none());
    let link = "[Desktop Entry]\nType=Link\nName=X\nExec=x\n";
    assert!(parse_desktop_file(link, "/x.desktop").is_none());
    let no_exec = "[Desktop Entry]\nType=Application\nName=X\n";
    assert!(parse_desktop_file(no_exec, "/x.desktop").is_none());
}

#[test]
fn exec_field_codes_are_removed() {
    assert_eq!(clean_exec("app %U --flag  %f"), "app --flag");
    assert_eq!(clean_exec("printf 100%% %x"), "printf 100% x");
    assert_eq!(clean_exec("tail %"), "tail %");
    assert!(parse_bool(" True "));
    assert!(!parse_bool("yes"));
}

fn app(name: &str) -> DesktopEntry {
    DesktopEntry { name: name.into(), exec_line: name.to_lowercase(), icon: None, path: format!("/{name}.desktop") }
}

#[test]
fn ranks_by_name_and_history() {
    let apps = vec![app("Terminal"), app("Termite"), app("Files")];
    let none = vec![UsageStats { global_count: 0, global_last_used: 0, query_count: 0, query_last_used: 0 }; 3];
    let ranked = rank_apps(&apps, " Term ", &none, 1_000_000);
    assert_eq!(ranked.len(), 2);
    assert_eq!(ranked[0].app.name, "Termite");
    let mut stats = none.clone();
    stats[0] = UsageStats { global_count: 1, global_last_used: 999_000, query_count: 1, query_last_used: 999_000 };
    let ranked = rank_apps(&apps, "term", &stats, 1_000_000);
    assert_eq!(ranked[0].app.name, "Terminal");
}

#[test]
fn command_lines_split_like_a_shell() {
    let mut a = app("Editor");
    a.exec_line = "code --new-window 'My Project'".into();
    assert_eq!(command_argv(&a), Ok(vec!["code".to_string(), "--new-window".into(), "My Project".into()]));
    a.exec_line = "code 'unclosed".into();
    assert_eq!(command_argv(&a), Err("missing closing quote".to_string()));
    a.exec_line = "   ".into();
    assert_eq!(command_argv(&a), Err("desktop entry has an empty Exec command".to_string()));
}

#[test]
fn apps_sort_by_name_ignoring_case() {
    let entry = |name: &str, path: &str| DesktopEntry {
        name: name.to_string(),
        exec_line: "x".to_string(),
        icon: None,
        path: path.to_string(),
    };
    let sorted = sort_by_name(vec![entry("beta", "1"), entry("Alpha", "2"), entry("alpha", "3")]);
    let paths: Vec<&str> = sorted.iter().map(|e| e.path.as_str()).collect();
    assert_eq!(paths, vec!["2", "3", "1"]);
}
