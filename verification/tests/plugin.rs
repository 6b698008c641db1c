use nursearch::plugin::{
    activation_matches, route_message, validate, Activation, ActivationMode, Manifest, Plugin,
    PluginRegistry, Routing, StartPlan,
};
use nursearch::proto::PluginMessage;

fn manifest(id: &str, protocol_version: u32, entry: &[&str], activation: Activation) -> Manifest {
    Manifest {
        id: id.to_string(),
        name: "Demo".to_string(),
        description: String::new(),
        version: String::new(),
        author: String::new(),
        license: String::new(),
        icon: None,
        protocol_version,
        entry: entry.iter().map(|s| s.to_string()).collect(),
        activation,
        preferences: Vec::new(),
        capabilities: Vec::new(),
    }
}

fn keyword(k: Option<&str>) -> Activation {
    Activation { mode: ActivationMode::Keyword, keyword: k.map(str::to_string), fallback: false }
}

fn global() -> Activation {
    Activation::default()
}

#[test]
fn parses_valid_manifest() {
    let m = manifest("com.example.demo", 1, &["python3", "main.py"], keyword(Some("d")));
    assert_eq!(validate(&m), Ok(()));
    assert_eq!(m.id, "com.example.demo");
    assert_eq!(m.activation.mode, ActivationMode::Keyword);
    assert_eq!(m.activation.keyword.as_deref(), Some("d"));
}

#[test]
fn rejects_wrong_protocol_version() {
    let m = manifest("com.example.demo", 99, &["python3", "main.py"], keyword(Some("d")));
    assert_eq!(
        validate(&m),
        Err("plugin 'com.example.demo' targets protocol 99 but host speaks 1".to_string())
    );
}

#[test]
fn rejects_keyword_activation_without_keyword() {
    let m = manifest("x", 1, &["x"], keyword(None));
    assert_eq!(
        validate(&m),
        Err("plugin 'x' uses keyword activation but defines no keyword".to_string())
    );
    let blank = manifest("x", 1, &["x"], keyword(Some("  ")));
    assert!(validate(&blank).is_err());
}

#[test]
fn defaults_to_global_activation() {
    let m = manifest("x", 1, &["x"], Activation::default());
    assert_eq!(validate(&m), Ok(()));
    assert_eq!(m.activation.mode, ActivationMode::Global);
}

#[test]
fn launch_argv_is_the_entry_command() {
    let plugin = Plugin {
        manifest: manifest("com.example.demo", 1, &["python3", "main.py"], keyword(Some("d"))),
        dir: "/plugins/demo".to_string(),
    };
    assert_eq!(plugin.launch_argv(), vec!["python3", "main.py"]);
}

#[test]
fn validation_messages() {
    assert_eq!(
        validate(&manifest(" ", 1, &["x"], global())),
        Err("manifest id is empty".to_string())
    );
    assert_eq!(
        validate(&manifest("p", 1, &[], global())),
        Err("plugin 'p' has an empty entry command".to_string())
    );
}

#[test]
fn global_plugin_always_contributes() {
    assert!(activation_matches(&global(), "anything"));
}

#[test]
fn keyword_plugin_only_on_prefix() {
    let act = keyword(Some("w"));
    assert!(activation_matches(&act, "w"));
    assert!(activation_matches(&act, "w firefox"));
    assert!(!activation_matches(&act, "world"));
    assert!(!activation_matches(&act, "firefox"));
}

fn registry() -> PluginRegistry {
    PluginRegistry::new(vec![
        Plugin { manifest: manifest("g", 1, &["g"], global()), dir: "/g".into() },
        Plugin { manifest: manifest("w", 1, &["w"], keyword(Some("w"))), dir: "/w".into() },
    ])
}

#[test]
fn contributors_and_keyword_routing() {
    let mut reg = registry();
    assert_eq!(reg.contributors_for("  w fire "), vec!["g".to_string(), "w".to_string()]);
    assert_eq!(reg.contributors_for("fire"), vec!["g".to_string()]);
    assert_eq!(reg.keyword_match("  w   fire fox"), Some(("w".to_string(), "fire fox".to_string())));
    assert_eq!(reg.keyword_match("wfire"), None);
    reg.disable("w");
    assert!(reg.is_disabled("w"));
    assert_eq!(reg.keyword_match("w fire"), None);
    assert_eq!(reg.contributors_for("w fire"), vec!["g".to_string()]);
    assert_eq!(reg.manifest("g").map(|m| m.id.as_str()), Some("g"));
    assert!(reg.manifest("nope").is_none());
}

#[test]
fn messages_wait_for_the_handshake() {
    let results = PluginMessage::Results { generation: 1, items: Vec::new(), done: true };
    assert_eq!(route_message(false, &results), Routing::Ignore);
    assert_eq!(route_message(true, &results), Routing::Deliver);
    let hello = PluginMessage::Initialized { protocol_version: 1, capabilities: Vec::new() };
    assert_eq!(route_message(false, &hello), Routing::MarkReady);
    let future = PluginMessage::Initialized { protocol_version: 2, capabilities: Vec::new() };
    assert_eq!(route_message(false, &future), Routing::Disable);
    let log = PluginMessage::Log { level: "info".into(), message: "hi".into() };
    assert_eq!(route_message(false, &log), Routing::Deliver);
}

#[test]
fn the_first_plugin_with_an_id_wins() {
    let mut reg = PluginRegistry::new(vec![]);
    assert!(reg.add(Plugin { manifest: manifest("a", 1, &["first"], global()), dir: "/one".into() }));
    assert!(!reg.add(Plugin { manifest: manifest("a", 1, &["second"], global()), dir: "/two".into() }));
    assert!(reg.add(Plugin { manifest: manifest("b", 1, &["x"], global()), dir: "/two".into() }));
    assert_eq!(reg.plugins.len(), 2);
    assert_eq!(reg.plugins[0].dir, "/one");
}

#[test]
fn start_plan_spawns_only_known_enabled_plugins() {
    let mut reg = PluginRegistry::new(vec![
        Plugin { manifest: manifest("g", 1, &["./run", "--x"], global()), dir: "/g".into() },
        Plugin { manifest: manifest("w", 1, &["w"], keyword(Some("w"))), dir: "/w".into() },
    ]);
    assert!(matches!(reg.start_plan("g", true), StartPlan::Running));
    match reg.start_plan("g", false) {
        StartPlan::Spawn { argv, dir } => {
            assert_eq!(argv, vec!["./run".to_string(), "--x".to_string()]);
            assert_eq!(dir, "/g");
        }
        _ => panic!("expected a spawn"),
    }
    assert!(matches!(reg.start_plan("nope", false), StartPlan::Unknown));
    reg.disable("w");
    assert!(matches!(reg.start_plan("w", false), StartPlan::Disabled));
}
