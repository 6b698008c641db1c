use nursearch::plugins::clipboard::{capture, delete_entry, history_entry, list_view, preview, MAX_ENTRIES};
use nursearch::plugins::demo::{demo_step, Demo, DemoStep};
use nursearch::plugins::desktop::{desktop_entry, status_summary, stored_cookie, toggle_target, toggles_view, DesktopToggle};
use nursearch::plugins::emoji::{emoji_results, first_word};
use nursearch::plugins::files::{file_needle, file_results, search_commands};
use nursearch::plugins::kdeconnect::{device_command, device_list_view, device_summary, DeviceCommand};
use nursearch::plugins::network::{network_command, network_view, status_summary as network_summary, NetworkCommand, NetworkState};
use nursearch::plugins::systemd::{service_detail, service_list_view, systemd_entry, systemd_step, ServiceInfo, SystemdStep};
use nursearch::proto::{ActionKind, Item, ListView, View, ViewEvent};

fn list(view: View) -> ListView {
    match view {
        View::List(l) => l,
        _ => panic!("expected a list view"),
    }
}

fn ids(items: &[Item]) -> Vec<String> {
    items.iter().map(|i| i.id.clone()).collect()
}

fn service(name: &str, active: &str, sub: &str, description: &str) -> ServiceInfo {
    ServiceInfo {
        name: name.to_string(),
        active: active.to_string(),
        sub: sub.to_string(),
        description: description.to_string(),
    }
}

#[test]
fn service_list_offers_control_only_for_unprotected_units() {
    let services = vec![
        service("arch-update.service", "active", "running", "Run arch-update"),
        service("backup.service", "inactive", "dead", "Nightly Backup"),
        service("pipewire.service", "active", "running", "Multimedia"),
    ];
    let l = list(service_list_view(&services, ""));
    assert_eq!(l.title.as_deref(), Some("Systemd User Services"));
    assert_eq!(l.placeholder.as_deref(), Some("Filter services…"));
    assert_eq!(l.empty_text.as_deref(), Some("No services found"));
    assert_eq!(ids(&l.items), vec!["arch-update.service", "backup.service", "pipewire.service"]);
    let running: Vec<&str> = l.items[0].actions.iter().map(|a| a.id.as_str()).collect();
    assert_eq!(running, vec!["status", "stop", "restart"]);
    let stopped: Vec<&str> = l.items[1].actions.iter().map(|a| a.id.as_str()).collect();
    assert_eq!(stopped, vec!["status", "start"]);
    assert_eq!(l.items[2].actions.len(), 1);
    assert_eq!(l.items[0].accessories, vec!["active (running)".to_string()]);
    assert_eq!(l.items[0].icon.as_deref(), Some("media-playback-start"));
    assert_eq!(l.items[1].icon.as_deref(), Some("media-playback-stop"));
    assert_eq!(l.items[1].subtitle.as_deref(), Some("Nightly Backup"));

    let filtered = list(service_list_view(&services, "BACKUP"));
    assert_eq!(ids(&filtered.items), vec!["backup.service"]);
    assert!(list(service_list_view(&services, "nothing")).items.is_empty());
}

#[test]
fn service_detail_shows_status_as_code() {
    match service_detail("a.service", Some("ok".to_string())) {
        View::Detail(d) => {
            assert_eq!(d.title.as_deref(), Some("a.service"));
            assert_eq!(d.markdown.as_deref(), Some("```\nok\n```"));
            assert_eq!(d.metadata[0].label, "Unit");
            assert_eq!(d.metadata[0].value, "a.service");
        }
        _ => panic!("expected a detail view"),
    }
    match service_detail("a.service", None) {
        View::Detail(d) => assert_eq!(d.markdown.as_deref(), Some("```\n(could not get status)\n```")),
        _ => panic!("expected a detail view"),
    }
    assert_eq!(systemd_entry().title, "Systemd User Services");
}

#[test]
fn systemd_steps_follow_events() {
    let input = ViewEvent::Input { text: "arch".to_string() };
    assert!(matches!(systemd_step(false, &input), SystemdStep::Filter { text } if text == "arch"));
    assert!(matches!(systemd_step(true, &input), SystemdStep::Ignore));
    let stop = ViewEvent::Action { action_id: "stop".to_string(), item_id: Some("dbus.service".to_string()) };
    assert!(matches!(systemd_step(false, &stop), SystemdStep::Control { allowed: false, .. }));
    let start = ViewEvent::Action { action_id: "start".to_string(), item_id: Some("x.service".to_string()) };
    assert!(matches!(systemd_step(false, &start), SystemdStep::Control { verb, unit, allowed: true } if verb == "start" && unit == "x.service"));
    let status = ViewEvent::Action { action_id: "status".to_string(), item_id: Some("x.service".to_string()) };
    assert!(matches!(systemd_step(false, &status), SystemdStep::Status { unit } if unit == "x.service"));
    let bare = ViewEvent::Action { action_id: "status".to_string(), item_id: None };
    assert!(matches!(systemd_step(false, &bare), SystemdStep::Ignore));
    assert!(matches!(systemd_step(true, &ViewEvent::Pop), SystemdStep::Back));
}

#[test]
fn network_view_without_nmcli_names_the_package() {
    let l = list(network_view("", &None));
    assert_eq!(l.title.as_deref(), Some("Network"));
    assert_eq!(ids(&l.items), vec!["missing"]);
    assert_eq!(l.items[0].title, "nmcli not found");
    assert_eq!(l.placeholder, None);
}

#[test]
fn network_view_filters_toggles_and_networks() {
    let state = Some(NetworkState {
        wifi_on: true,
        bluetooth_on: false,
        networks: vec![("Home".to_string(), true), ("Cafe".to_string(), false)],
    });
    let l = list(network_view("", &state));
    assert_eq!(ids(&l.items), vec!["toggle-wifi", "toggle-bt", "connect:Home", "connect:Cafe"]);
    assert_eq!(l.items[0].title, "Wi-Fi: On — click to turn off");
    assert_eq!(l.items[1].title, "Bluetooth: Off — click to turn on");
    assert_eq!(l.items[1].icon.as_deref(), Some("bluetooth-disabled"));
    assert_eq!(l.items[2].accessories, vec!["✓".to_string()]);
    assert_eq!(l.items[2].subtitle.as_deref(), Some("Connected"));
    assert_eq!(l.items[3].subtitle.as_deref(), Some("Known network — click to connect"));
    assert_eq!(ids(&list(network_view("WI", &state)).items), vec!["toggle-wifi"]);
    assert_eq!(ids(&list(network_view("blue", &state)).items), vec!["toggle-bt"]);
    assert_eq!(ids(&list(network_view("caf", &state)).items), vec!["connect:Cafe"]);
    let off = Some(NetworkState { wifi_on: false, bluetooth_on: true, networks: vec![("Home".to_string(), false)] });
    assert_eq!(ids(&list(network_view("", &off)).items), vec!["toggle-wifi", "toggle-bt"]);
}

#[test]
fn network_commands_and_summary() {
    assert!(matches!(network_command("toggle-wifi", None), NetworkCommand::ToggleWifi));
    assert!(matches!(network_command("x", Some("toggle-bt")), NetworkCommand::ToggleBluetooth));
    assert!(matches!(network_command("x", Some("connect:Home")), NetworkCommand::Connect { ssid } if ssid == "Home"));
    assert!(matches!(network_command("x", Some("connect:--ask")), NetworkCommand::Nothing));
    assert!(matches!(network_command("other", None), NetworkCommand::Nothing));
    assert_eq!(network_summary(true, false), "Wi-Fi: On  •  Bluetooth: Off");
}

#[test]
fn kdeconnect_views_and_commands() {
    assert_eq!(device_summary(false, 3), "kdeconnect-cli not found — install kdeconnect");
    assert_eq!(device_summary(true, 0), "No reachable devices");
    assert_eq!(device_summary(true, 12), "12 device(s) reachable");
    let missing = list(device_list_view("", &None));
    assert_eq!(ids(&missing.items), vec!["missing"]);
    let devices = Some(vec![("a1".to_string(), "My Phone".to_string()), ("b2".to_string(), "Tablet".to_string())]);
    let l = list(device_list_view("phone", &devices));
    assert_eq!(ids(&l.items), vec!["a1"]);
    assert_eq!(l.items[0].title, "My Phone");
    let actions: Vec<&str> = l.items[0].actions.iter().map(|a| a.id.as_str()).collect();
    assert_eq!(actions, vec!["ring", "ping", "clipboard"]);
    assert_eq!(list(device_list_view("", &devices)).items.len(), 2);
    match device_command("ring", "a1") {
        DeviceCommand::Run { argv } => assert_eq!(argv, vec!["kdeconnect-cli", "--device", "a1", "--ring"]),
        _ => panic!("ring runs directly"),
    }
    match device_command("clipboard", "a1") {
        DeviceCommand::RunViaHost { argv } => assert_eq!(argv, vec!["kdeconnect-cli", "--device", "a1", "--send-clipboard"]),
        _ => panic!("clipboard goes through the host"),
    }
    assert!(matches!(device_command("other", "a1"), DeviceCommand::Nothing));
}

#[test]
fn desktop_toggles_show_their_state() {
    assert_eq!(status_summary(true, false), "Night Color: Off  •  DND: Off");
    assert_eq!(status_summary(false, true), "Night Color: On  •  DND: On");
    let l = list(toggles_view(true, true));
    assert_eq!(ids(&l.items), vec!["toggle-nightcolor", "toggle-dnd"]);
    assert_eq!(l.items[0].title, "Night Color: Off — click to re-enable");
    assert_eq!(l.items[0].icon.as_deref(), Some("weather-clear"));
    assert_eq!(l.items[1].title, "Do Not Disturb: On — click to disable");
    assert!(matches!(toggle_target("toggle-dnd", None), DesktopToggle::DoNotDisturb));
    assert!(matches!(toggle_target("x", Some("toggle-nightcolor")), DesktopToggle::NightColor));
    assert!(matches!(toggle_target("toggle-dnd", Some("other")), DesktopToggle::Nothing));
    assert_eq!(stored_cookie(" 42\n"), Some(42));
    assert_eq!(stored_cookie("x"), None);
    assert_eq!(desktop_entry("s".to_string()).score, 5200);
}

#[test]
fn clipboard_capture_moves_text_to_front() {
    let history = vec!["b".to_string(), "a".to_string(), "c".to_string()];
    assert_eq!(capture(&history, "a"), Some(vec!["a".to_string(), "b".to_string(), "c".to_string()]));
    assert_eq!(capture(&history, "b"), None);
    assert_eq!(capture(&history, "   "), None);
    let full: Vec<String> = (0..MAX_ENTRIES).map(|i| i.to_string()).collect();
    let next = capture(&full, "new").unwrap();
    assert_eq!(next.len(), MAX_ENTRIES);
    assert_eq!(next[0], "new");
    assert_eq!(next[MAX_ENTRIES - 1], (MAX_ENTRIES - 2).to_string());
}

#[test]
fn clipboard_preview_and_list() {
    assert_eq!(preview("  first line  \nsecond"), "first line");
    let long = "x".repeat(90);
    assert_eq!(preview(&long), format!("{}…", "x".repeat(80)));
    assert_eq!(preview(""), "");
    let history = vec!["Hello World".to_string(), "other".to_string()];
    let l = list(list_view(&history, "WORLD"));
    assert_eq!(ids(&l.items), vec!["0"]);
    assert!(matches!(&l.items[0].actions[0].kind, ActionKind::Copy { text } if text == "Hello World"));
    assert_eq!(ids(&list(list_view(&history, "")).items), vec!["0", "1"]);
    assert_eq!(delete_entry(&history, "1"), Some(vec!["Hello World".to_string()]));
    assert_eq!(delete_entry(&history, "2"), None);
    assert_eq!(delete_entry(&history, "x"), None);
    assert_eq!(history_entry(3).subtitle.as_deref(), Some("3 entries"));
}

#[test]
fn demo_lists_and_details() {
    let demo = Demo {
        items: vec![
            ("Alpha".to_string(), "The first demo item.".to_string()),
            ("Beta".to_string(), "The second demo item.".to_string()),
        ],
    };
    assert_eq!(Demo::query_item("").subtitle.as_deref(), Some("Open the demo list"));
    assert_eq!(Demo::query_item("x").subtitle.as_deref(), Some("Open the demo list (x)"));
    assert_eq!(ids(&list(demo.list_view("al")).items), vec!["Alpha"]);
    match demo.detail_view("Beta") {
        View::Detail(d) => assert_eq!(d.markdown.as_deref(), Some("The second demo item.")),
        _ => panic!("expected a detail view"),
    }
    match demo.detail_view("Zeta") {
        View::Detail(d) => assert_eq!(d.markdown.as_deref(), Some("")),
        _ => panic!("expected a detail view"),
    }
    let ev = ViewEvent::Action { action_id: "detail".to_string(), item_id: Some("Beta".to_string()) };
    assert!(matches!(demo_step(&ev), DemoStep::Detail { item } if item == "Beta"));
}

#[test]
fn emoji_results_match_keywords() {
    let hearts = emoji_results(" HEART ");
    let titles: Vec<&str> = hearts.iter().map(|r| r.title.as_str()).collect();
    assert_eq!(titles, vec!["😍  love", "❤️  red", "💔  broken"]);
    assert_eq!(emoji_results("").len(), 12);
    assert_eq!(emoji_results("🚀")[0].id, "🚀");
    assert!(emoji_results("zzz").is_empty());
    assert_eq!(first_word("fire lit hot"), "fire");
}

#[test]
fn file_search_commands_and_items() {
    assert_eq!(file_needle(" a "), None);
    assert_eq!(file_needle(" é "), Some("é".to_string()));
    assert_eq!(search_commands("-rf", "/home/u"), None);
    let (fd, find) = search_commands("rep", "/home/u").unwrap();
    assert_eq!(fd, vec!["fd", "--type", "f", "--hidden", "--exclude", ".git", "--max-results", "20", "--", "rep", "/home/u"]);
    assert_eq!(find, vec!["find", "/home/u", "-type", "f", "-iname", "*rep*"]);
    let paths: Vec<String> = (0..25).map(|i| format!("/home/u/f{i}.txt")).collect();
    let items = file_results(&paths);
    assert_eq!(items.len(), 20);
    assert_eq!(items[0].title, "f0.txt");
    assert_eq!(items[3].score, 4997);
    assert_eq!(file_results(&["/".to_string()])[0].title, "/");
}
