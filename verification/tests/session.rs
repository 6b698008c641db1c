use nursearch::config::Quicklink;
use nursearch::proto::{Action, ActionKind, DetailView, FormView, HostCall, Item, ListView, View};
use nursearch::session::{
    action_capability, action_decision, activation, capability_declared, capability_denied, current_actions,
    host_call_decision, query_plan, quicklink_mode, required_capability, Activation, PopOutcome, SessionState,
};

fn list(title: &str) -> View {
    View::List(ListView { title: Some(title.into()), ..Default::default() })
}

fn top_title(st: &SessionState) -> Option<String> {
    match st.session.as_ref()?.stack.last()? {
        View::List(l) => l.title.clone(),
        View::Detail(d) => d.title.clone(),
        View::Form(f) => f.title.clone(),
    }
}

#[test]
fn only_the_owner_renders_and_stale_renders_are_dropped() {
    let mut st = SessionState::new();
    assert!(!st.render("p", 0, false, list("early")));
    let g = st.activate("p");
    assert_eq!(g, 1);
    assert!(!st.render("q", g, false, list("intruder")));
    assert!(st.render("p", g, false, list("first")));
    assert!(st.render("p", 0, false, list("second")));
    assert_eq!(top_title(&st), Some("second".into()));
    assert!(st.render("p", g, true, View::Detail(DetailView { title: Some("swapped".into()), ..Default::default() })));
    assert_eq!(st.session.as_ref().unwrap().stack.len(), 2);
    assert_eq!(top_title(&st), Some("swapped".into()));
    let (to, g2) = st.next_event().unwrap();
    assert_eq!((to.as_str(), g2), ("p", 2));
    assert!(!st.render("p", 1, false, list("stale")));
}

#[test]
fn back_and_pop_unwind_the_stack() {
    let mut st = SessionState::new();
    let g = st.activate("p");
    st.render("p", g, false, list("a"));
    st.render("p", g, false, list("b"));
    assert!(!st.back());
    assert_eq!(top_title(&st), Some("a".into()));
    assert_eq!(st.pop("q", 0), PopOutcome::Ignored);
    assert_eq!(st.pop("p", 0), PopOutcome::Emptied);
    assert!(st.close("p", 0));
    assert!(st.session.is_none() && st.owner.is_none());
    assert!(!st.close("p", 0));
}

#[test]
fn host_calls_need_declared_capabilities() {
    assert_eq!(required_capability(&HostCall::StorageGet { key: "k".into() }), Some("storage"));
    assert_eq!(required_capability(&HostCall::CloseLauncher), None);
    let caps = vec!["clipboard".to_string(), "storage".to_string()];
    assert!(capability_declared(&caps, "storage"));
    assert!(!capability_declared(&caps, "run"));
    assert_eq!(capability_denied("p", "run"), "plugin 'p' did not declare the 'run' capability");
}

#[test]
fn queries_go_to_the_keyword_plugin_or_all_contributors() {
    assert!(query_plan("", None, vec!["a".into()]).is_empty());
    assert_eq!(
        query_plan("w fire", Some(("w".into(), "fire".into())), vec!["a".into()]),
        vec![("w".to_string(), "fire".to_string())]
    );
    assert_eq!(
        query_plan("fire", None, vec!["a".into(), "b".into()]),
        vec![("a".to_string(), "fire".to_string()), ("b".to_string(), "fire".to_string())]
    );
}

#[test]
fn quicklink_mode_badge() {
    let links = vec![Quicklink { keyword: "aw".into(), name: "Arch Wiki".into(), url: "https://x/{query}".into(), icon: None }];
    assert_eq!(quicklink_mode("  AW wayland", &links), Some("Arch Wiki".into()));
    assert_eq!(quicklink_mode("aw", &links), None);
    assert_eq!(quicklink_mode("awesome thing", &links), None);
}

fn act(id: &str, kind: ActionKind) -> Action {
    Action { id: id.into(), title: id.into(), icon: None, shortcut: None, kind }
}

fn two_item_list() -> View {
    View::List(ListView {
        items: vec![
            Item {
                id: "a".into(),
                title: "A".into(),
                subtitle: None,
                icon: None,
                accessories: vec![],
                actions: vec![act("open", ActionKind::OpenUrl { url: "https://x".into() }), act("more", ActionKind::Plugin)],
            },
            Item { id: "b".into(), title: "B".into(), subtitle: None, icon: None, accessories: vec![], actions: vec![] },
        ],
        actions: vec![act("refresh", ActionKind::Plugin)],
        ..Default::default()
    })
}

#[test]
fn host_handled_actions_need_capabilities() {
    assert_eq!(action_capability(&ActionKind::Copy { text: "x".into() }), Some("clipboard"));
    assert_eq!(action_capability(&ActionKind::Paste { text: "x".into() }), Some("clipboard"));
    assert_eq!(action_capability(&ActionKind::OpenUrl { url: "u".into() }), Some("open"));
    assert_eq!(action_capability(&ActionKind::Run { argv: vec![] }), Some("run"));
    assert_eq!(action_capability(&ActionKind::Plugin), None);
    assert_eq!(action_capability(&ActionKind::Close), None);
}

#[test]
fn action_menu_lists_item_then_view_actions() {
    let offered: Vec<(String, Option<String>)> =
        current_actions(two_item_list(), Some(0)).into_iter().map(|(a, i)| (a.id, i)).collect();
    assert_eq!(
        offered,
        vec![
            ("open".to_string(), Some("a".to_string())),
            ("more".to_string(), Some("a".to_string())),
            ("refresh".to_string(), None)
        ]
    );
    assert_eq!(current_actions(two_item_list(), Some(7)).len(), 1);
    assert_eq!(current_actions(two_item_list(), None).len(), 1);
    let detail = View::Detail(DetailView { actions: vec![act("copy", ActionKind::Close)], ..Default::default() });
    assert_eq!(current_actions(detail, Some(0)).len(), 1);
}

#[test]
fn enter_runs_the_first_action_or_reports_the_choice() {
    assert!(matches!(activation(two_item_list(), Some(0)), Activation::Run { action, item_id: Some(id) } if action.id == "open" && id == "a"));
    assert!(matches!(activation(two_item_list(), Some(1)), Activation::Default { item_id } if item_id == "b"));
    assert!(matches!(activation(two_item_list(), None), Activation::Nothing));
    assert!(matches!(activation(View::Detail(DetailView::default()), None), Activation::Nothing));
    let form = View::Form(FormView::default());
    assert!(matches!(activation(form, None), Activation::Submit));
}

#[test]
fn host_calls_need_their_declared_capability() {
    let declared = vec!["storage".to_string(), "toast".to_string()];
    let get = HostCall::StorageGet { key: "k".into() };
    assert_eq!(host_call_decision(&get, &declared, false, "p"), Ok(()));
    let run = HostCall::Run { argv: vec!["ls".into()] };
    assert_eq!(
        host_call_decision(&run, &declared, true, "p"),
        Err("plugin 'p' did not declare the 'run' capability".to_string())
    );
    assert_eq!(
        host_call_decision(&HostCall::Open { target: "x".into() }, &[], true, "q"),
        Err("plugin 'q' did not declare the 'open' capability".to_string())
    );
}

#[test]
fn close_launcher_is_reserved_to_the_session_owner() {
    assert_eq!(host_call_decision(&HostCall::CloseLauncher, &[], true, "p"), Ok(()));
    assert_eq!(
        host_call_decision(&HostCall::CloseLauncher, &["clipboard".to_string()], false, "p"),
        Err("closeLauncher is only allowed for the active session".to_string())
    );
}

#[test]
fn host_handled_actions_need_the_owners_capability() {
    let declared = vec!["clipboard".to_string()];
    let copy = ActionKind::Copy { text: "x".into() };
    assert_eq!(action_decision(&copy, Some(&declared)), Ok(()));
    assert_eq!(action_decision(&copy, None), Err("clipboard"));
    let run = ActionKind::Run { argv: vec!["ls".into()] };
    assert_eq!(action_decision(&run, Some(&declared)), Err("run"));
    assert_eq!(action_decision(&ActionKind::Plugin, None), Ok(()));
}
