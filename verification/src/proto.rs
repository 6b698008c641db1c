//! The messages exchanged between the launcher and its plugins.
//!
//! On the wire each message is one line of compact JSON with a `type`
//! discriminator; turning values into lines and back is done by the
//! application around this library. Here the messages are plain data.
//!
//! Two concerns share the channel: root contributions (`Query` / `Results`),
//! flat ranked items on the launcher's start screen, and view sessions
//! (`Activate` / `Event` / `Render` / `Pop` / `Close`), a declarative
//! push-view interaction once a plugin item is chosen.

use std::collections::BTreeMap;
use vstd::prelude::*;
use vstd::view::View as _;

verus! {

/// `serde_json::Value`, carried through unchanged (user preferences, the
/// payload of a host-call reply).
#[verifier::external_type_specification]
#[verifier::external_body]
pub struct ExJsonValue(serde_json::Value);

/// Protocol revision. Host and plugin exchange it at `Initialize`; a mismatch
/// disables the plugin.
pub const PROTOCOL_VERSION: u32 = 1;

/// Host to plugin.
#[derive(Debug)]
pub enum HostMessage {
    /// Handshake; sent once before anything else.
    Initialize {
        protocol_version: u32,
        host_version: String,
        plugin_id: String,
        /// User-set preference values keyed by manifest preference id.
        preferences: serde_json::Value,
    },
    /// Root-screen query for global / active-keyword plugins.
    Query { generation: u64, text: String },
    /// A plugin-owned root item was chosen; start a view session.
    Activate { generation: u64, command_id: String, item_id: Option<String> },
    /// Input within an active view session.
    Event { generation: u64, event: ViewEvent },
    /// Response to a plugin's host-capability call.
    HostResult { id: u64, outcome: HostOutcome },
    /// Graceful stop request.
    Shutdown,
}

/// Input within a view session.
#[derive(Debug, Clone)]
pub enum ViewEvent {
    /// The search box text changed while this view is active.
    Input { text: String },
    /// An item was highlighted (not yet activated).
    Select { item_id: String },
    /// An action was invoked (primary = Enter, others via the action menu).
    Action { action_id: String, item_id: Option<String> },
    /// A form was submitted with field values keyed by field id.
    Submit { values: BTreeMap<String, String> },
    /// The user asked to go back (Esc) from this view.
    Pop,
}

/// Result handed back to a plugin after it makes a host-capability call.
#[derive(Debug, Default)]
pub struct HostOutcome {
    pub ok: bool,
    pub value: Option<serde_json::Value>,
    pub error: Option<String>,
}

impl HostOutcome {
    /// A successful outcome carrying `value`.
    pub fn ok(value: Option<serde_json::Value>) -> (r: Self)
        ensures
            r.ok,
            r.value == value,
            r.error is None,
    {
        HostOutcome { ok: true, value, error: None }
    }

    /// A failed outcome with `message`.
    pub fn error(message: String) -> (r: Self)
        ensures
            !r.ok,
            r.value is None,
            r.error == Some(message),
    {
        HostOutcome { ok: false, value: None, error: Some(message) }
    }
}

/// Plugin to host.
#[derive(Debug, Clone)]
pub enum PluginMessage {
    /// Handshake reply.
    Initialized { protocol_version: u32, capabilities: Vec<String> },
    /// Root contributions tagged with the query generation; `done` when no
    /// further results for this generation follow.
    Results { generation: u64, items: Vec<ResultItem>, done: bool },
    /// Push (default) or replace the top view of the active session.
    /// `generation` echoes the triggering activate/event so the host can drop
    /// stale renders; 0 means unstamped (always accepted).
    Render { generation: u64, replace: bool, view: View },
    /// Pop the top view (back one level); 0 = unstamped.
    Pop { generation: u64 },
    /// End the session; 0 = unstamped.
    Close { generation: u64, hide_launcher: bool },
    /// Invoke a host capability; correlated by `id` with a `HostResult`.
    HostCall { id: u64, call: HostCall },
    /// Diagnostic logging surfaced by the host.
    Log { level: String, message: String },
}

/// A host capability a plugin may invoke.
#[derive(Debug, Clone)]
pub enum HostCall {
    ClipboardSet { text: String },
    Open { target: String },
    Run { argv: Vec<String> },
    Toast { text: String, kind: Option<String> },
    StorageGet { key: String },
    StorageSet { key: String, value: String },
    StorageDelete { key: String },
    StorageList { prefix: Option<String> },
    CloseLauncher,
}

/// A flat, rankable item contributed to the root screen.
#[derive(Debug, Clone)]
pub struct ResultItem {
    pub id: String,
    pub title: String,
    pub subtitle: Option<String>,
    pub icon: Option<String>,
    /// Relative score hint; the host blends it with usage history.
    pub score: i64,
    /// Activating this item starts a view session with this command id.
    pub command_id: String,
    pub actions: Vec<Action>,
}

/// A declarative view.
#[derive(Debug, Clone)]
pub enum View {
    List(ListView),
    Detail(DetailView),
    Form(FormView),
}

#[derive(Debug, Clone, Default)]
pub struct ListView {
    pub title: Option<String>,
    pub placeholder: Option<String>,
    pub items: Vec<Item>,
    pub empty_text: Option<String>,
    pub actions: Vec<Action>,
}

#[derive(Debug, Clone, Default)]
pub struct DetailView {
    pub title: Option<String>,
    pub placeholder: Option<String>,
    pub markdown: Option<String>,
    pub metadata: Vec<MetaPair>,
    pub actions: Vec<Action>,
}

#[derive(Debug, Clone, Default)]
pub struct FormView {
    pub title: Option<String>,
    pub placeholder: Option<String>,
    pub fields: Vec<Field>,
    pub submit_label: Option<String>,
    pub actions: Vec<Action>,
}

#[derive(Debug, Clone)]
pub struct Item {
    pub id: String,
    pub title: String,
    pub subtitle: Option<String>,
    pub icon: Option<String>,
    pub accessories: Vec<String>,
    pub actions: Vec<Action>,
}

#[derive(Debug, Clone)]
pub struct MetaPair {
    pub label: String,
    pub value: String,
}

#[derive(Debug, Clone)]
pub struct Field {
    pub id: String,
    pub field_type: FieldType,
    pub label: String,
    pub value: Option<String>,
    pub placeholder: Option<String>,
    pub options: Vec<FieldOption>,
}

#[derive(Debug, Clone, Copy, PartialEq, Eq, Structural)]
pub enum FieldType {
    Text,
    Password,
    Number,
    Select,
    Checkbox,
}

#[derive(Debug, Clone)]
pub struct FieldOption {
    pub value: String,
    pub label: String,
}

#[derive(Debug, Clone)]
pub struct Action {
    pub id: String,
    pub title: String,
    pub icon: Option<String>,
    pub shortcut: Option<String>,
    pub kind: ActionKind,
}

/// What an action does. Host-handled kinds run without a round trip;
/// `Plugin` re-enters the plugin via an `Event::Action`.
#[derive(Debug, Clone, Default)]
pub enum ActionKind {
    /// Re-enter the plugin so it can react (the default).
    #[default]
    Plugin,
    Copy { text: String },
    OpenUrl { url: String },
    Run { argv: Vec<String> },
    Paste { text: String },
    Close,
}

/// The text of an optional string.
pub open spec fn opt_text(o: Option<String>) -> Option<Seq<char>> {
    match o {
        Some(s) => Some(s@),
        None => None,
    }
}

impl Item {
    /// The item shows `title` under the id `id`, with the given subtitle and
    /// icon.
    pub open spec fn shows(
        self,
        id: Seq<char>,
        title: Seq<char>,
        subtitle: Option<Seq<char>>,
        icon: Option<Seq<char>>,
    ) -> bool {
        &&& self.id@ == id
        &&& self.title@ == title
        &&& opt_text(self.subtitle) == subtitle
        &&& opt_text(self.icon) == icon
    }

    /// An item with no accessories and no actions of its own.
    pub open spec fn is_bare(self) -> bool {
        self.accessories@.len() == 0 && self.actions@.len() == 0
    }
}

impl Action {
    /// An action that goes back to the plugin, titled `title`, with no
    /// shortcut.
    pub open spec fn is_plugin_action(self, id: Seq<char>, title: Seq<char>, icon: Option<Seq<char>>) -> bool {
        &&& self.id@ == id
        &&& self.title@ == title
        &&& opt_text(self.icon) == icon
        &&& self.shortcut is None
        &&& self.kind is Plugin
    }
}

impl ResultItem {
    /// A root entry with no actions, whose command is its id.
    pub open spec fn is_entry(
        self,
        id: Seq<char>,
        title: Seq<char>,
        subtitle: Option<Seq<char>>,
        icon: Option<Seq<char>>,
        score: i64,
    ) -> bool {
        &&& self.id@ == id
        &&& self.title@ == title
        &&& opt_text(self.subtitle) == subtitle
        &&& opt_text(self.icon) == icon
        &&& self.score == score
        &&& self.command_id@ == id
        &&& self.actions@.len() == 0
    }
}

impl View {
    /// A list view with the given title, placeholder and empty text, and no
    /// view actions.
    pub open spec fn is_list(
        self,
        title: Option<Seq<char>>,
        placeholder: Option<Seq<char>>,
        empty_text: Option<Seq<char>>,
    ) -> bool {
        &&& self matches View::List(l)
        &&& opt_text(l.title) == title
        &&& opt_text(l.placeholder) == placeholder
        &&& opt_text(l.empty_text) == empty_text
        &&& l.actions@.len() == 0
    }

    /// The items of a list view (none for other views).
    pub open spec fn list_items(self) -> Seq<Item> {
        match self {
            View::List(l) => l.items@,
            _ => seq![],
        }
    }
}

impl Item {
    /// An item with no accessories and no actions.
    pub(crate) fn bare(id: &str, title: &str, subtitle: Option<&str>, icon: &str) -> (r: Item)
        ensures
            r.shows(
                id@,
                title@,
                match subtitle {
                    Some(s) => Some(s@),
                    None => None,
                },
                Some(icon@),
            ),
            r.is_bare(),
    {
        Item {
            id: id.to_owned(),
            title: title.to_owned(),
            subtitle: match subtitle {
                Some(s) => Some(s.to_owned()),
                None => None,
            },
            icon: Some(icon.to_owned()),
            accessories: Vec::new(),
            actions: Vec::new(),
        }
    }
}

impl Action {
    /// An action handled by the plugin.
    pub(crate) fn plugin(id: &str, title: &str, icon: &str) -> (r: Action)
        ensures
            r.is_plugin_action(id@, title@, Some(icon@)),
    {
        Action {
            id: id.to_owned(),
            title: title.to_owned(),
            icon: Some(icon.to_owned()),
            shortcut: None,
            kind: ActionKind::Plugin,
        }
    }
}


} // verus!
