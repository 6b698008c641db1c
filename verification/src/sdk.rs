//! The plugin side of the protocol: what a plugin answers, the host
//! capabilities it may call, and the bookkeeping of its message loop.
//!
//! A plugin reads host messages line by line and writes its own; the loop
//! that does the reading and writing belongs to the application. Here are the
//! decisions it takes: what a host message asks for, which message a plugin's
//! response becomes, and how host messages that arrive while a host call is
//! waiting for its reply are kept for later instead of being lost.

use crate::proto::{HostMessage, HostOutcome, PluginMessage, ResultItem, ViewEvent, PROTOCOL_VERSION};
use std::collections::VecDeque;
use vstd::prelude::*;

verus! {

/// What a plugin does in response to an activation or event.
pub enum Response {
    /// Push a new view onto the stack.
    Render(crate::proto::View),
    /// Replace the current top view.
    Replace(crate::proto::View),
    /// Pop the current view.
    Pop,
    /// End the session, optionally hiding the launcher.
    Close { hide: bool },
}

/// Host capabilities a plugin may call. Calls block until the host replies.
pub trait HostApi {
    fn clipboard_set(&mut self, text: &str);

    fn open(&mut self, target: &str);

    fn run_command(&mut self, argv: Vec<String>);

    fn toast(&mut self, text: &str);

    fn storage_get(&mut self, key: &str) -> Option<String>;

    fn storage_set(&mut self, key: &str, value: &str);

    fn storage_delete(&mut self, key: &str);

    fn storage_list(&mut self, prefix: Option<&str>) -> Vec<(String, String)>;
}

/// The message a plugin's `response` to the activation or event of
/// `generation` becomes; the generation is echoed so the host can drop
/// stale answers.
pub open spec fn response_spec(response: Response, generation: u64) -> PluginMessage {
    match response {
        Response::Render(view) => PluginMessage::Render { generation, replace: false, view },
        Response::Replace(view) => PluginMessage::Render { generation, replace: true, view },
        Response::Pop => PluginMessage::Pop { generation },
        Response::Close { hide } => PluginMessage::Close { generation, hide_launcher: hide },
    }
}

/// Turn a plugin's response into the message sent to the host.
pub fn response_message(response: Response, generation: u64) -> (r: PluginMessage)
    ensures
        r == response_spec(response, generation),
{
    match response {
        Response::Render(view) => PluginMessage::Render { generation, replace: false, view },
        Response::Replace(view) => PluginMessage::Render { generation, replace: true, view },
        Response::Pop => PluginMessage::Pop { generation },
        Response::Close { hide } => PluginMessage::Close { generation, hide_launcher: hide },
    }
}

/// The answer to a root query of `generation`: all items at once.
pub fn results_message(generation: u64, items: Vec<ResultItem>) -> (r: PluginMessage)
    ensures
        r == (PluginMessage::Results { generation, items, done: true }),
{
    PluginMessage::Results { generation, items, done: true }
}

/// What the plugin's loop does with a host message.
pub enum Step {
    /// Answer with this message right away (the handshake).
    Reply(PluginMessage),
    /// Ask the plugin for root contributions and answer with them.
    Query { generation: u64, text: String },
    /// Start a view session; answer with the plugin's response, if any.
    Activate { generation: u64, command_id: String, item_id: Option<String> },
    /// Pass a session event on; answer with the plugin's response, if any.
    Event { generation: u64, event: ViewEvent },
    /// Nothing to do (a host-call reply that nobody waits for).
    Ignore,
    /// The host asked the plugin to stop.
    Stop,
}

/// Decide what a host message asks of the plugin: the handshake is answered
/// with the protocol version and no capabilities, queries, activations and
/// events go to the plugin, a stray host-call reply is ignored, and
/// `Shutdown` ends the loop.
pub fn step(message: HostMessage) -> (r: Step)
    ensures
        match message {
            HostMessage::Initialize { .. } => r matches Step::Reply(m) && m matches PluginMessage::Initialized { protocol_version, capabilities } && protocol_version == PROTOCOL_VERSION && capabilities@.len() == 0,
            HostMessage::Query { generation, text } => r == (Step::Query { generation, text }),
            HostMessage::Activate { generation, command_id, item_id } => r == (Step::Activate { generation, command_id, item_id }),
            HostMessage::Event { generation, event } => r == (Step::Event { generation, event }),
            HostMessage::HostResult { .. } => r is Ignore,
            HostMessage::Shutdown => r is Stop,
        },
{
    match message {
        HostMessage::Initialize { .. } => Step::Reply(
            PluginMessage::Initialized { protocol_version: PROTOCOL_VERSION, capabilities: Vec::new() },
        ),
        HostMessage::Query { generation, text } => Step::Query { generation, text },
        HostMessage::Activate { generation, command_id, item_id } => Step::Activate {
            generation,
            command_id,
            item_id,
        },
        HostMessage::Event { generation, event } => Step::Event { generation, event },
        HostMessage::HostResult { .. } => Step::Ignore,
        HostMessage::Shutdown => Step::Stop,
    }
}

/// The plugin's side of host calls: the id of the next call, and the host
/// messages that arrived while a call waited for its reply, oldest first.
pub struct Inbox {
    next_id: u64,
    pending: VecDeque<HostMessage>,
}

/// `m` is the reply to the host call `id`.
pub open spec fn is_reply_to(m: HostMessage, id: u64) -> bool {
    m matches HostMessage::HostResult { id: rid, .. } && rid == id
}

impl Inbox {
    /// The messages kept for the main loop, oldest first.
    pub closed spec fn pending(&self) -> Seq<HostMessage> {
        self.pending@
    }

    /// The id the next host call gets.
    pub closed spec fn next_id(&self) -> u64 {
        self.next_id
    }

    /// An inbox with nothing kept; calls are numbered from 0.
    pub fn new() -> (r: Self)
        ensures
            r.pending() == Seq::<HostMessage>::empty(),
            r.next_id() == 0,
    {
        Inbox { next_id: 0, pending: VecDeque::new() }
    }

    /// Whether another host call can still be numbered.
    pub fn can_call(&self) -> (r: bool)
        ensures
            r == (self.next_id() < u64::MAX),
    {
        self.next_id < u64::MAX
    }

    /// Number a new host call.
    pub fn start_call(&mut self) -> (id: u64)
        requires
            old(self).next_id() < u64::MAX,
        ensures
            id == old(self).next_id(),
            final(self).next_id() == id + 1,
            final(self).pending() == old(self).pending(),
    {
        let id = self.next_id;
        self.next_id = id + 1;
        id
    }

    /// A message read while call `waiting` waits: its reply ends the wait and
    /// is handed back; any other message is kept, after those kept before.
    pub fn on_message(&mut self, waiting: u64, message: HostMessage) -> (r: Option<HostOutcome>)
        ensures
            final(self).next_id() == old(self).next_id(),
            is_reply_to(message, waiting) ==> (final(self).pending() == old(self).pending()
                && match message {
                HostMessage::HostResult { outcome, .. } => r == Some(outcome),
                _ => false,
            }),
            !is_reply_to(message, waiting) ==> (r is None && final(self).pending() == old(self).pending().push(message)),
    {
        match message {
            HostMessage::HostResult { id, outcome } => {
                if id == waiting {
                    return Some(outcome);
                }
                self.pending.push_back(HostMessage::HostResult { id, outcome });
                None
            },
            other => {
                self.pending.push_back(other);
                None
            },
        }
    }

    /// The oldest kept message, if any; the main loop handles these before
    /// reading from the host again.
    pub fn next_pending(&mut self) -> (r: Option<HostMessage>)
        ensures
            final(self).next_id() == old(self).next_id(),
            old(self).pending().len() == 0 ==> r is None && final(self).pending() == old(self).pending(),
            old(self).pending().len() > 0 ==> r == Some(old(self).pending()[0]) && final(self).pending() == old(self).pending().drop_first(),
    {
        self.pending.pop_front()
    }
}

/// Messages kept while a host call waits come back in the order they
/// arrived: keeping `m` behind the kept messages `q` and then taking the
/// oldest gives the oldest of `q`, or `m` itself when nothing else was kept.
pub proof fn lemma_kept_messages_replay_in_order(q: Seq<HostMessage>, m: HostMessage)
    ensures
        q.len() > 0 ==> q.push(m)[0] == q[0] && q.push(m).drop_first() == q.drop_first().push(m),
        q.len() == 0 ==> q.push(m)[0] == m && q.push(m).drop_first().len() == 0,
{
    if q.len() > 0 {
        assert(q.push(m).drop_first() =~= q.drop_first().push(m));
    }
}

} // verus!
