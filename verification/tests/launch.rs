use nursearch::desktop::DesktopEntry;
use nursearch::launch::{desktop_file_id, fallback_check, handler_id, launch_plan, paste_commands, systemd_run_argv, unique_suffix, unit_name, LaunchPlan};

#[test]
fn unit_names_escape_reserved_characters() {
    assert_eq!(unit_name("org.kde.dolphin", "1f", "scope"), "app-nursearch-org.kde.dolphin-1f.scope");
    assert_eq!(
        unit_name("t3code-nightly", "2a", "service"),
        "app-nursearch-t3code\\x2dnightly-2a.service"
    );
    assert_eq!(unit_name(".hidden app", "1", "scope"), "app-nursearch-\\x2ehidden\\x20app-1.scope");
    assert_eq!(unit_name("é", "1", "scope"), "app-nursearch-\\xc3\\xa9-1.scope");
}

#[test]
fn scope_ids_come_from_the_desktop_file_name() {
    assert_eq!(desktop_file_id("/usr/share/applications/org.kde.dolphin.desktop"), "org.kde.dolphin");
    assert_eq!(desktop_file_id("/"), "app");
}

fn app(exec: Option<&str>, terminal: bool, dbus: bool) -> DesktopEntry {
    DesktopEntry {
        name: "A".into(),
        generic_name: None,
        comment: None,
        keywords: Vec::new(),
        exec_line: exec.map(str::to_string),
        icon: None,
        path: "/a.desktop".into(),
        dbus_activatable: dbus,
        terminal,
    }
}

#[test]
fn plain_commands_run_directly() {
    assert_eq!(launch_plan(&app(Some("a"), false, false)), LaunchPlan::Exec);
    assert_eq!(launch_plan(&app(Some("a"), true, false)), LaunchPlan::Desktop);
    assert_eq!(launch_plan(&app(None, false, true)), LaunchPlan::Desktop);
    assert!(fallback_check(&app(None, false, true)).is_some());
    assert!(fallback_check(&app(Some("a"), true, false)).is_some());
    assert!(fallback_check(&app(Some("a"), false, true)).is_none());
}

#[test]
fn unique_suffix_is_pid_and_counter_in_hex() {
    assert_eq!(unique_suffix(0x1f, 0), "1f0");
    assert_eq!(unique_suffix(4660, 255), "1234ff");
}

#[test]
fn systemd_run_wraps_the_command() {
    let argv = systemd_run_argv("app-nursearch-x-1.service", &vec!["firefox".to_string(), "--new".to_string()]);
    assert_eq!(
        argv,
        vec!["systemd-run", "--user", "--collect", "--quiet", "--unit=app-nursearch-x-1.service", "--", "firefox", "--new"]
    );
}

#[test]
fn handler_ids_lose_the_desktop_suffix() {
    assert_eq!(handler_id("org.kde.dolphin.desktop"), "org.kde.dolphin");
    assert_eq!(handler_id("a.desktop.desktop"), "a");
    assert_eq!(handler_id("firefox"), "firefox");
    assert_eq!(paste_commands()[0][0], "wtype");
    assert_eq!(paste_commands().len(), 3);
}
