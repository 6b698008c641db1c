use nursearch::proto::{HostMessage, HostOutcome, ListView, PluginMessage, View};
use nursearch::sdk::{response_message, step, Inbox, Response, Step};

#[test]
fn host_call_does_not_drop_queued_messages() {
    let mut inbox = Inbox::new();
    let id = inbox.start_call();
    assert_eq!(id, 0);
    let first = HostMessage::Query { generation: 1, text: "first".into() };
    let second = HostMessage::Query { generation: 2, text: "second".into() };
    assert!(inbox.on_message(id, first).is_none());
    assert!(inbox.on_message(id, second).is_none());
    let reply = HostMessage::HostResult { id, outcome: HostOutcome::ok(None) };
    assert!(inbox.on_message(id, reply).unwrap().ok);
    assert!(matches!(inbox.next_pending(), Some(HostMessage::Query { text, .. }) if text == "first"));
    assert!(matches!(inbox.next_pending(), Some(HostMessage::Query { text, .. }) if text == "second"));
    assert!(inbox.next_pending().is_none());
    assert_eq!(inbox.start_call(), 1);
}

#[test]
fn replies_to_other_calls_are_kept() {
    let mut inbox = Inbox::new();
    let stale = HostMessage::HostResult { id: 7, outcome: HostOutcome::error("late".into()) };
    assert!(inbox.on_message(0, stale).is_none());
    assert!(matches!(inbox.next_pending(), Some(HostMessage::HostResult { id: 7, .. })));
}

#[test]
fn handshake_and_dispatch() {
    let init = HostMessage::Initialize {
        protocol_version: 1,
        host_version: "0.1.0".into(),
        plugin_id: "test".into(),
        preferences: serde_json::Value::Null,
    };
    assert!(matches!(
        step(init),
        Step::Reply(PluginMessage::Initialized { protocol_version: 1, capabilities }) if capabilities.is_empty()
    ));
    assert!(matches!(step(HostMessage::Query { generation: 3, text: "demo".into() }), Step::Query { generation: 3, text } if text == "demo"));
    assert!(matches!(step(HostMessage::Shutdown), Step::Stop));
}

#[test]
fn responses_echo_the_generation() {
    let view = View::List(ListView { title: Some("Opened".into()), ..Default::default() });
    assert!(matches!(
        response_message(Response::Render(view), 4),
        PluginMessage::Render { generation: 4, replace: false, .. }
    ));
    assert!(matches!(
        response_message(Response::Close { hide: true }, 9),
        PluginMessage::Close { generation: 9, hide_launcher: true }
    ));
    assert!(matches!(response_message(Response::Pop, 2), PluginMessage::Pop { generation: 2 }));
}

#[test]
fn a_fresh_inbox_can_number_calls() {
    let mut inbox = Inbox::new();
    assert!(inbox.can_call());
    assert_eq!(inbox.start_call(), 0);
    assert!(inbox.can_call());
    assert_eq!(inbox.start_call(), 1);
}
