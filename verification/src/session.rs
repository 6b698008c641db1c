//! The launcher's side of plugin view sessions: who owns the session, which
//! answers are stale, the stack of views the plugin pushed, which host
//! capabilities a call needs, and which plugins a query is sent to.

use crate::config::Quicklink;
use crate::direct::{first_white, opt_view};
use crate::proto;
use crate::proto::{Action, ActionKind, HostCall};
use crate::text::{cat, chars_of, lowercase, str_eq, string_of, sub_chars, to_lower, trim_start, trim_start_index};
use vstd::prelude::*;

verus! {

/// An open view session: the plugin it belongs to and its views, the top
/// one shown.
pub struct Session {
    pub plugin_id: String,
    pub stack: Vec<crate::proto::View>,
}

/// The session bookkeeping of the launcher window.
pub struct SessionState {
    /// The plugin whose item was activated last; only it may render.
    pub owner: Option<String>,
    pub session: Option<Session>,
    /// Bumped on every activation, event and back step; answers stamped
    /// with an older generation are stale.
    pub generation: u64,
}

/// What a pop of the session's view stack left.
#[derive(Clone, Copy, Debug, PartialEq, Eq, Structural)]
pub enum PopOutcome {
    /// The message was not accepted (another plugin, or stale).
    Ignored,
    /// The stack is empty: the session is over.
    Emptied,
    /// Views remain; the new top is shown.
    Shown,
}

/// The plugin id of the open session, if any.
pub open spec fn session_plugin(s: Option<Session>) -> Option<Seq<char>> {
    match s {
        Some(x) => Some(x.plugin_id@),
        None => None,
    }
}

/// The views of the open session (empty when there is none).
pub open spec fn session_stack(s: Option<Session>) -> Seq<crate::proto::View> {
    match s {
        Some(x) => x.stack@,
        None => seq![],
    }
}

/// The stack after `view` arrives from `plugin_id`: a plugin other than the
/// session's starts a fresh stack; `replace` swaps the top view, otherwise
/// the view is pushed.
pub open spec fn stack_after_render(s: Option<Session>, plugin_id: Seq<char>, replace: bool, view: crate::proto::View) -> Seq<crate::proto::View> {
    let base = if session_plugin(s) == Some(plugin_id) {
        session_stack(s)
    } else {
        seq![]
    };
    if replace && base.len() > 0 {
        base.update(base.len() - 1, view)
    } else {
        base.push(view)
    }
}

/// A session message from `plugin_id` stamped `generation` is taken: the
/// plugin owns the session and the stamp is not older than the latest input
/// (0 is unstamped).
pub open spec fn accepts(st: SessionState, plugin_id: Seq<char>, generation: u64) -> bool {
    opt_view(st.owner) == Some(plugin_id) && !(generation != 0 && generation < st.generation)
}

impl SessionState {
    /// No session, no owner, generation 0.
    pub fn new() -> (r: Self)
        ensures
            r.owner is None,
            r.session is None,
            r.generation == 0,
    {
        SessionState { owner: None, session: None, generation: 0 }
    }

    /// Whether `plugin_id` owns the current (or pending) session.
    pub fn owns(&self, plugin_id: &str) -> (r: bool)
        ensures
            r == (opt_view(self.owner) == Some(plugin_id@)),
    {
        match &self.owner {
            Some(o) => str_eq(o.as_str(), plugin_id),
            None => false,
        }
    }

    /// Whether an answer stamped `generation` belongs to an older input than
    /// the latest; 0 means unstamped, which is always accepted.
    pub fn is_stale(&self, generation: u64) -> (r: bool)
        ensures
            r == (generation != 0 && generation < self.generation),
    {
        generation != 0 && generation < self.generation
    }

    /// A plugin item was activated: its plugin owns the session from now on,
    /// and the activation gets a new generation.
    pub fn activate(&mut self, plugin_id: &str) -> (g: u64)
        requires
            old(self).generation < u64::MAX,
        ensures
            opt_view(final(self).owner) == Some(plugin_id@),
            final(self).generation == old(self).generation + 1,
            g == final(self).generation,
            final(self).session == old(self).session,
    {
        self.owner = Some(plugin_id.to_owned());
        self.generation = self.generation + 1;
        self.generation
    }

    /// An event for the open session: the plugin to send it to, with a new
    /// generation; nothing when no session is open.
    pub fn next_event(&mut self) -> (r: Option<(String, u64)>)
        requires
            old(self).generation < u64::MAX,
        ensures
            old(self).session is None ==> r is None && *final(self) == *old(self),
            old(self).session matches Some(s) ==> (r matches Some((id, g)) && id@ == s.plugin_id@
                && g == old(self).generation + 1 && final(self).generation == g
                && final(self).session == old(self).session && final(self).owner == old(self).owner),
    {
        match &self.session {
            None => None,
            Some(s) => {
                let id = s.plugin_id.clone();
                self.generation = self.generation + 1;
                Some((id, self.generation))
            },
        }
    }

    /// A plugin rendered a view. Renders from a plugin that does not own
    /// the session, and stale ones, are dropped (`false`); otherwise the view
    /// is shown on the session's stack (a new session for a new plugin).
    pub fn render(&mut self, plugin_id: &str, generation: u64, replace: bool, view: crate::proto::View) -> (r: bool)
        ensures
            r == accepts(*old(self), plugin_id@, generation),
            !r ==> *final(self) == *old(self),
            r ==> (session_plugin(final(self).session) == Some(plugin_id@) && session_stack(
                final(self).session,
            ) == stack_after_render(old(self).session, plugin_id@, replace, view)),
            final(self).owner == old(self).owner,
            final(self).generation == old(self).generation,
    {
        if !self.owns(plugin_id) || self.is_stale(generation) {
            return false;
        }
        let continuing = match &self.session {
            Some(s) => str_eq(s.plugin_id.as_str(), plugin_id),
            None => false,
        };
        let mut stack: Vec<crate::proto::View> = if continuing {
            match self.session.take() {
                Some(s) => s.stack,
                None => Vec::new(),
            }
        } else {
            Vec::new()
        };
        let n = stack.len();
        if replace && n > 0 {
            stack.set(n - 1, view);
        } else {
            stack.push(view);
        }
        self.session = Some(Session { plugin_id: plugin_id.to_owned(), stack });
        true
    }

    fn pop_view(&mut self) -> (emptied: bool)
        ensures
            final(self).owner == old(self).owner,
            final(self).generation == old(self).generation,
            session_plugin(final(self).session) == session_plugin(old(self).session),
            old(self).session is None ==> emptied,
            old(self).session is Some ==> (session_stack(final(self).session) == (if session_stack(
                old(self).session,
            ).len() > 0 {
                session_stack(old(self).session).drop_last()
            } else {
                session_stack(old(self).session)
            }) && emptied == (session_stack(final(self).session).len() == 0)),
    {
        match self.session.take() {
            None => true,
            Some(s) => {
                let mut stack = s.stack;
                let _ = stack.pop();
                let emptied = stack.len() == 0;
                self.session = Some(Session { plugin_id: s.plugin_id, stack });
                emptied
            },
        }
    }

    /// The session's plugin popped its own view.
    pub fn pop(&mut self, plugin_id: &str, generation: u64) -> (r: PopOutcome)
        ensures
            !accepts(*old(self), plugin_id@, generation) ==> r == PopOutcome::Ignored && *final(self) == *old(self),
            accepts(*old(self), plugin_id@, generation) ==> {
                &&& r != PopOutcome::Ignored
                &&& session_plugin(final(self).session) == session_plugin(old(self).session)
                &&& old(self).session is None ==> r == PopOutcome::Emptied
                &&& old(self).session is Some ==> {
                    &&& session_stack(final(self).session) == (if session_stack(old(self).session).len()
                        > 0 {
                        session_stack(old(self).session).drop_last()
                    } else {
                        session_stack(old(self).session)
                    })
                    &&& (r == PopOutcome::Emptied <==> session_stack(final(self).session).len() == 0)
                }
            },
            final(self).owner == old(self).owner,
            final(self).generation == old(self).generation,
    {
        if !self.owns(plugin_id) || self.is_stale(generation) {
            return PopOutcome::Ignored;
        }
        if self.pop_view() {
            PopOutcome::Emptied
        } else {
            PopOutcome::Shown
        }
    }

    /// The user went back (Esc): the launcher pops its own stack, without
    /// asking the plugin, and bumps the generation so an answer still on its
    /// way for the popped view is dropped. `true` when the session is over.
    pub fn back(&mut self) -> (emptied: bool)
        requires
            old(self).generation < u64::MAX,
        ensures
            final(self).generation == old(self).generation + 1,
            final(self).owner == old(self).owner,
            old(self).session is None ==> emptied,
            old(self).session is Some ==> (session_stack(final(self).session) == (if session_stack(
                old(self).session,
            ).len() > 0 {
                session_stack(old(self).session).drop_last()
            } else {
                session_stack(old(self).session)
            }) && emptied == (session_stack(final(self).session).len() == 0)),
    {
        self.generation = self.generation + 1;
        self.pop_view()
    }

    /// Tear the session down.
    pub fn exit(&mut self)
        ensures
            final(self).session is None,
            final(self).owner is None,
            final(self).generation == old(self).generation,
    {
        self.session = None;
        self.owner = None;
    }

    /// The session's plugin ended it; `false` when the message was not
    /// accepted (another plugin, or stale).
    pub fn close(&mut self, plugin_id: &str, generation: u64) -> (r: bool)
        ensures
            r == accepts(*old(self), plugin_id@, generation),
            r ==> final(self).session is None && final(self).owner is None,
            !r ==> *final(self) == *old(self),
            final(self).generation == old(self).generation,
    {
        if !self.owns(plugin_id) || self.is_stale(generation) {
            return false;
        }
        self.exit();
        true
    }
}


/// Once a plugin item is activated (`after` is the state `activate` left,
/// `g` the generation it gave), only that plugin is answered: its messages
/// stamped `g`, or unstamped, are taken; those of any other plugin, and its
/// own stamped for an earlier input, are dropped.
pub proof fn lemma_only_the_activated_plugin_is_answered(
    before: SessionState,
    after: SessionState,
    plugin_id: Seq<char>,
    g: u64,
)
    requires
        opt_view(after.owner) == Some(plugin_id),
        after.generation == before.generation + 1,
        g == after.generation,
    ensures
        accepts(after, plugin_id, g),
        accepts(after, plugin_id, 0),
        forall|other: Seq<char>, x: u64| other != plugin_id ==> !accepts(after, other, x),
        forall|x: u64| 0 < x <= before.generation ==> !accepts(after, plugin_id, x),
{
}

/// Going back (`after` is the state `back` left) makes every answer stamped
/// for an input before it stale.
pub proof fn lemma_back_drops_answers_on_their_way(before: SessionState, after: SessionState)
    requires
        after.generation == before.generation + 1,
    ensures
        forall|p: Seq<char>, x: u64| 0 < x <= before.generation ==> !accepts(after, p, x),
{
}

// ---------------------------------------------------------------------------
// Host capabilities
// ---------------------------------------------------------------------------

/// The capability a plugin must declare for a host call; closing the
/// launcher needs none (it is reserved to the session's owner instead).
pub open spec fn capability_of(call: HostCall) -> Option<&'static str> {
    match call {
        HostCall::ClipboardSet { .. } => Some("clipboard"),
        HostCall::Open { .. } => Some("open"),
        HostCall::Run { .. } => Some("run"),
        HostCall::Toast { .. } => Some("toast"),
        HostCall::StorageGet { .. } => Some("storage"),
        HostCall::StorageSet { .. } => Some("storage"),
        HostCall::StorageDelete { .. } => Some("storage"),
        HostCall::StorageList { .. } => Some("storage"),
        HostCall::CloseLauncher => None,
    }
}

pub fn required_capability(call: &HostCall) -> (r: Option<&'static str>)
    ensures
        r == capability_of(*call),
{
    match call {
        HostCall::ClipboardSet { .. } => Some("clipboard"),
        HostCall::Open { .. } => Some("open"),
        HostCall::Run { .. } => Some("run"),
        HostCall::Toast { .. } => Some("toast"),
        HostCall::StorageGet { .. } => Some("storage"),
        HostCall::StorageSet { .. } => Some("storage"),
        HostCall::StorageDelete { .. } => Some("storage"),
        HostCall::StorageList { .. } => Some("storage"),
        HostCall::CloseLauncher => None,
    }
}

/// Whether `capability` is among the declared `capabilities`.
pub fn capability_declared(capabilities: &[String], capability: &str) -> (r: bool)
    ensures
        r == exists|i: int|
            0 <= i < capabilities@.len() && (#[trigger] capabilities@[i])@ == capability@,
{
    let mut i: usize = 0;
    while i < capabilities.len()
        invariant
            i <= capabilities@.len(),
            forall|k: int| 0 <= k < i ==> (#[trigger] capabilities@[k])@ != capability@,
        decreases capabilities@.len() - i,
    {
        if str_eq(capabilities[i].as_str(), capability) {
            return true;
        }
        i = i + 1;
    }
    false
}

/// The refusal a plugin gets for a call whose capability it did not declare.
pub fn capability_denied(plugin_id: &str, capability: &str) -> (r: String)
    ensures
        r@ == "plugin '"@ + plugin_id@ + "' did not declare the '"@ + capability@ + "' capability"@,
{
    let a = cat("plugin '", plugin_id);
    let b = cat(a.as_str(), "' did not declare the '");
    let c = cat(b.as_str(), capability);
    cat(c.as_str(), "' capability")
}

/// The refusal of `closeLauncher` from a plugin that does not own the
/// active session.
pub open spec fn close_refused_message() -> Seq<char> {
    "closeLauncher is only allowed for the active session"@
}

/// Whether plugin `plugin_id`, with the capabilities `declared` in its
/// manifest, may make the host call `call`: a call that needs a capability
/// is allowed exactly when it was declared; closing the launcher is allowed
/// exactly for the plugin that owns the active session. A refusal carries
/// the message the plugin is answered with.
pub fn host_call_decision(call: &HostCall, declared: &[String], owns_session: bool, plugin_id: &str) -> (r: Result<(), String>)
    ensures
        r is Ok <==> match capability_of(*call) {
            Some(c) => exists|i: int| 0 <= i < declared@.len() && (#[trigger] declared@[i])@ == c@,
            None => owns_session,
        },
        r matches Err(e) ==> e@ == match capability_of(*call) {
            Some(c) => "plugin '"@ + plugin_id@ + "' did not declare the '"@ + c@ + "' capability"@,
            None => close_refused_message(),
        },
{
    match required_capability(call) {
        Some(c) => {
            if capability_declared(declared, c) {
                Ok(())
            } else {
                Err(capability_denied(plugin_id, c))
            }
        },
        None => {
            if owns_session {
                Ok(())
            } else {
                Err("closeLauncher is only allowed for the active session".to_string())
            }
        },
    }
}

// ---------------------------------------------------------------------------
// Which plugins a query goes to
// ---------------------------------------------------------------------------

/// The plugins asked to contribute to a query, with the text each gets. A
/// blank query asks no one; an active keyword hands the rest of the query to
/// its plugin alone; otherwise every contributor sees the normalized query.
pub fn query_plan(normalized: &str, keyword: Option<(String, String)>, contributors: Vec<String>) -> (r: Vec<(String, String)>)
    ensures
        normalized@.len() == 0 ==> r@.len() == 0,
        normalized@.len() > 0 && keyword is Some ==> r@ == seq![keyword.unwrap()],
        normalized@.len() > 0 && keyword is None ==> r@.len() == contributors@.len() && forall|i: int|
            0 <= i < r@.len() ==> (#[trigger] r@[i]).0 == contributors@[i] && r@[i].1@ == normalized@,
{
    if normalized.is_empty() {
        return Vec::new();
    }
    match keyword {
        Some(k) => {
            let mut v = Vec::new();
            v.push(k);
            v
        },
        None => {
            let mut out: Vec<(String, String)> = Vec::new();
            let mut i: usize = 0;
            while i < contributors.len()
                invariant
                    i <= contributors@.len(),
                    out@.len() == i,
                    forall|k: int|
                        0 <= k < i ==> (#[trigger] out@[k]).0 == contributors@[k] && out@[k].1@
                            == normalized@,
                decreases contributors@.len() - i,
            {
                out.push((contributors[i].clone(), normalized.to_owned()));
                i = i + 1;
            }
            out
        },
    }
}

/// The quicklink a query is typing: its first word (leading whitespace
/// ignored, lowercased) names a quicklink's keyword and more text follows.
pub open spec fn quicklink_mode_of(query: Seq<char>, links: Seq<Quicklink>) -> Option<Seq<char>> {
    let q = trim_start(query);
    let k = first_white(q, 0);
    if k >= q.len() {
        None
    } else {
        let kw = lowercase(q.subrange(0, k));
        if exists|i: int| 0 <= i < links.len() && (#[trigger] links[i]).keyword@ == kw {
            let i = choose|i: int|
                0 <= i < links.len() && (#[trigger] links[i]).keyword@ == kw && forall|j: int|
                    0 <= j < i ==> links[j].keyword@ != kw;
            Some(links[i].name@)
        } else {
            None
        }
    }
}

/// The name of the quicklink whose keyword starts the query (shown as the
/// mode badge beside the search box), if any.
pub fn quicklink_mode(query: &str, quicklinks: &[Quicklink]) -> (r: Option<String>)
    ensures
        match r {
            Some(name) => quicklink_mode_of(query@, quicklinks@) == Some(name@),
            None => quicklink_mode_of(query@, quicklinks@) is None,
        },
{
    let qc = chars_of(query);
    let s = trim_start_index(&qc);
    let q = sub_chars(&qc, s, qc.len());
    let mut k: usize = 0;
    while k < q.len() && !crate::text::char_is_white(q[k])
        invariant
            k <= q@.len(),
            first_white(q@, 0) == first_white(q@, k as int),
        decreases q@.len() - k,
    {
        k = k + 1;
    }
    if k >= q.len() {
        return None;
    }
    let kw = to_lower(string_of(&sub_chars(&q, 0, k)).as_str());
    let ghost kws = kw@;
    let mut i: usize = 0;
    while i < quicklinks.len()
        invariant
            i <= quicklinks@.len(),
            kws == kw@,
            q@ == trim_start(query@),
            k == first_white(q@, 0),
            k < q@.len(),
            kws == lowercase(q@.subrange(0, k as int)),
            forall|j: int| 0 <= j < i ==> (#[trigger] quicklinks@[j]).keyword@ != kws,
        decreases quicklinks@.len() - i,
    {
        if str_eq(quicklinks[i].keyword.as_str(), kw.as_str()) {
            proof {
                let ii = i as int;
                assert(quicklinks@[ii].keyword@ == kws);
                assert(0 <= ii < quicklinks@.len() && (#[trigger] quicklinks@[ii]).keyword@ == kws
                    && forall|j: int| 0 <= j < ii ==> quicklinks@[j].keyword@ != kws);
                let c = choose|c: int|
                    0 <= c < quicklinks@.len() && (#[trigger] quicklinks@[c]).keyword@ == kws
                        && forall|j: int| 0 <= j < c ==> quicklinks@[j].keyword@ != kws;
                if c < ii {
                    assert(quicklinks@[c].keyword@ != kws);
                } else if c > ii {
                    assert(quicklinks@[ii].keyword@ != kws);
                }
                assert(c == ii);
            }
            return Some(quicklinks[i].name.clone());
        }
        i = i + 1;
    }
    None
}

/// The capability a host-handled action needs: the clipboard for copy and
/// paste, `open` for a URL, `run` for a command; none for the others.
pub open spec fn action_capability_of(kind: ActionKind) -> Option<&'static str> {
    match kind {
        ActionKind::Copy { .. } => Some("clipboard"),
        ActionKind::Paste { .. } => Some("clipboard"),
        ActionKind::OpenUrl { .. } => Some("open"),
        ActionKind::Run { .. } => Some("run"),
        ActionKind::Plugin => None,
        ActionKind::Close => None,
    }
}

/// The capability the plugin must have declared before the launcher
/// carries out an action of `kind` for it.
pub fn action_capability(kind: &ActionKind) -> (r: Option<&'static str>)
    ensures
        r == action_capability_of(*kind),
{
    match kind {
        ActionKind::Copy { .. } => Some("clipboard"),
        ActionKind::Paste { .. } => Some("clipboard"),
        ActionKind::OpenUrl { .. } => Some("open"),
        ActionKind::Run { .. } => Some("run"),
        ActionKind::Plugin => None,
        ActionKind::Close => None,
    }
}

/// Whether the launcher may carry out an action of `kind` for the session
/// whose owner declared `owner_capabilities` (`None` when no plugin owns
/// the session): an action that needs a capability is allowed exactly when
/// the owner declared it; a refusal names the missing capability.
pub fn action_decision(kind: &ActionKind, owner_capabilities: Option<&[String]>) -> (r: Result<(), &'static str>)
    ensures
        r is Ok <==> match action_capability_of(*kind) {
            Some(c) => match owner_capabilities {
                Some(d) => exists|i: int| 0 <= i < d@.len() && (#[trigger] d@[i])@ == c@,
                None => false,
            },
            None => true,
        },
        r matches Err(c) ==> action_capability_of(*kind) == Some(c),
{
    match action_capability(kind) {
        None => Ok(()),
        Some(c) => match owner_capabilities {
            Some(d) => {
                if capability_declared(d, c) {
                    Ok(())
                } else {
                    Err(c)
                }
            },
            None => Err(c),
        },
    }
}

/// `actions`, each paired with `item`.
pub open spec fn with_item(actions: Seq<Action>, item: Option<String>) -> Seq<(Action, Option<String>)> {
    actions.map_values(|a: Action| (a, item))
}

/// The actions offered for the selection `selected` of `view`: those of
/// the selected list item (with its id), then those of the view itself.
pub open spec fn offered_actions(view: proto::View, selected: Option<usize>) -> Seq<(Action, Option<String>)> {
    match view {
        proto::View::List(l) => {
            let own = match selected {
                Some(i) if i < l.items@.len() => with_item(
                    l.items@[i as int].actions@,
                    Some(l.items@[i as int].id),
                ),
                _ => seq![],
            };
            own + with_item(l.actions@, None)
        },
        proto::View::Detail(d) => with_item(d.actions@, None),
        proto::View::Form(f) => with_item(f.actions@, None),
    }
}

fn push_with_item(out: &mut Vec<(Action, Option<String>)>, actions: Vec<Action>, item: &Option<String>)
    ensures
        final(out)@ == old(out)@ + with_item(actions@, *item),
{
    let ghost start = out@;
    let ghost all = actions@;
    let n = actions.len();
    let mut rest = actions;
    let mut i: usize = 0;
    while rest.len() > 0
        invariant
            n == all.len(),
            i + rest@.len() == all.len(),
            rest@ == all.subrange(i as int, all.len() as int),
            out@ == start + with_item(all.subrange(0, i as int), *item),
        decreases rest@.len(),
    {
        let a = rest.remove(0);
        let id = match item {
            Some(s) => Some(s.clone()),
            None => None,
        };
        out.push((a, id));
        assert(with_item(all.subrange(0, i + 1), *item) =~= with_item(all.subrange(0, i as int), *item).push(
            (all[i as int], *item),
        ));
        assert(rest@ =~= all.subrange(i + 1, all.len() as int));
        i = i + 1;
    }
    assert(all.subrange(0, all.len() as int) =~= all);
}

/// The actions offered for the selection of `view` (the action menu).
pub fn current_actions(view: proto::View, selected: Option<usize>) -> (r: Vec<(Action, Option<String>)>)
    ensures
        r@ == offered_actions(view, selected),
{
    let ghost v = view;
    let mut out: Vec<(Action, Option<String>)> = Vec::new();
    match view {
        proto::View::List(l) => {
            let mut items = l.items;
            match selected {
                Some(i) => if i < items.len() {
                    let item = items.remove(i);
                    let id = Some(item.id);
                    push_with_item(&mut out, item.actions, &id);
                },
                None => {},
            }
            push_with_item(&mut out, l.actions, &None);
        },
        proto::View::Detail(d) => push_with_item(&mut out, d.actions, &None),
        proto::View::Form(f) => push_with_item(&mut out, f.actions, &None),
    }
    assert(out@ =~= offered_actions(v, selected));
    out
}

/// What Enter does in a view session.
pub enum Activation {
    Nothing,
    /// Carry out `action` (for the item `item_id`).
    Run { action: Action, item_id: Option<String> },
    /// Tell the plugin the selected item was chosen (it has no actions).
    Default { item_id: String },
    /// Submit the form.
    Submit,
}

/// Enter on the selection `selected` of `view`: a list item runs its first
/// action, or is reported as chosen when it has none; a detail page runs its
/// first action; a form is submitted.
pub fn activation(view: proto::View, selected: Option<usize>) -> (r: Activation)
    ensures
        match view {
            proto::View::List(l) => match selected {
                Some(i) if i < l.items@.len() => {
                    let item = l.items@[i as int];
                    if item.actions@.len() > 0 {
                        r matches Activation::Run { action, item_id } && action == item.actions@[0]
                            && item_id == Some(item.id)
                    } else {
                        r matches Activation::Default { item_id } && item_id == item.id
                    }
                },
                _ => r is Nothing,
            },
            proto::View::Detail(d) => if d.actions@.len() > 0 {
                r matches Activation::Run { action, item_id } && action == d.actions@[0]
                    && item_id is None
            } else {
                r is Nothing
            },
            proto::View::Form(_) => r is Submit,
        },
{
    match view {
        proto::View::List(l) => match selected {
            Some(i) => if i < l.items.len() {
                let mut items = l.items;
                let mut item = items.remove(i);
                if item.actions.len() > 0 {
                    let action = item.actions.remove(0);
                    Activation::Run { action, item_id: Some(item.id) }
                } else {
                    Activation::Default { item_id: item.id }
                }
            } else {
                Activation::Nothing
            },
            None => Activation::Nothing,
        },
        proto::View::Detail(d) => if d.actions.len() > 0 {
            let mut actions = d.actions;
            Activation::Run { action: actions.remove(0), item_id: None }
        } else {
            Activation::Nothing
        },
        proto::View::Form(_) => Activation::Submit,
    }
}

} // verus!
