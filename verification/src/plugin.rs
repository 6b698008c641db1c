//! Plugins as the launcher sees them: the manifest (`nursearch-plugin.toml`)
//! and its validation, which plugins take part in a query, and how messages
//! from a plugin are routed around its handshake.
//!
//! Reading manifests from disk, running plugin processes and delivering
//! messages is the application's part; the decisions are made here.

use crate::num::{nat_digits, push_digits};
use crate::proto::{PluginMessage, PROTOCOL_VERSION};
use crate::text::{cat, chars_of, starts_with, starts_with_exec, str_eq, string_of, sub_chars, trim, trim_chars, trim_start, trim_start_index};
use vstd::prelude::*;

verus! {

/// `toml::Value`, carried through unchanged (a preference's default).
#[verifier::external_type_specification]
#[verifier::external_body]
pub struct ExTomlValue(toml::Value);

/// File name of a plugin manifest inside its directory.
pub const MANIFEST_FILE: &'static str = "nursearch-plugin.toml";

/// When a plugin contributes to the root screen.
#[derive(Clone, Copy, Debug, PartialEq, Eq, Structural)]
pub enum ActivationMode {
    /// For every query.
    Global,
    /// Only when the query starts with the plugin's keyword.
    Keyword,
}

#[derive(Clone, Debug)]
pub struct Activation {
    pub mode: ActivationMode,
    pub keyword: Option<String>,
    /// Also contribute when the query matches nothing else.
    pub fallback: bool,
}

impl Default for ActivationMode {
    fn default() -> (r: Self)
        ensures
            r == ActivationMode::Global,
    {
        ActivationMode::Global
    }
}

impl Default for Activation {
    fn default() -> (r: Self)
        ensures
            r.mode == ActivationMode::Global,
            r.keyword is None,
            !r.fallback,
    {
        Activation { mode: ActivationMode::Global, keyword: None, fallback: false }
    }
}

/// A user-settable preference a plugin declares.
#[derive(Debug)]
pub struct Preference {
    pub id: String,
    pub pref_type: String,
    pub label: String,
    pub default: Option<toml::Value>,
    pub options: Vec<String>,
}

/// The contents of a plugin manifest.
#[derive(Debug)]
pub struct Manifest {
    pub id: String,
    pub name: String,
    pub description: String,
    pub version: String,
    pub author: String,
    pub license: String,
    pub icon: Option<String>,
    pub protocol_version: u32,
    /// Command and arguments that launch the plugin process.
    pub entry: Vec<String>,
    pub activation: Activation,
    pub preferences: Vec<Preference>,
    pub capabilities: Vec<String>,
}

/// A validated manifest plus the directory it was loaded from.
#[derive(Debug)]
pub struct Plugin {
    pub manifest: Manifest,
    pub dir: String,
}

impl Plugin {
    /// The command to launch. Relative paths resolve against the plugin
    /// directory, because the process is started there.
    pub fn launch_argv(&self) -> (r: Vec<String>)
        ensures
            r@ == self.manifest.entry@,
    {
        let mut out: Vec<String> = Vec::new();
        let mut i: usize = 0;
        while i < self.manifest.entry.len()
            invariant
                i <= self.manifest.entry@.len(),
                out@ == self.manifest.entry@.subrange(0, i as int),
            decreases self.manifest.entry@.len() - i,
        {
            out.push(self.manifest.entry[i].clone());
            i = i + 1;
            assert(out@ =~= self.manifest.entry@.subrange(0, i as int));
        }
        assert(out@ =~= self.manifest.entry@);
        out
    }

    pub fn id(&self) -> (r: &str)
        ensures
            r@ == self.manifest.id@,
    {
        self.manifest.id.as_str()
    }
}

/// A keyword activation names a keyword that is not blank.
pub open spec fn has_keyword(a: Activation) -> bool {
    a.keyword matches Some(k) && trim(k@).len() > 0
}

/// What is wrong with a manifest, checked in this order: a blank id, an empty
/// entry command, another protocol version than the host's, a keyword
/// activation without a keyword.
pub open spec fn manifest_problem(m: Manifest) -> Option<Seq<char>> {
    if trim(m.id@).len() == 0 {
        Some("manifest id is empty"@)
    } else if m.entry@.len() == 0 {
        Some("plugin '"@ + m.id@ + "' has an empty entry command"@)
    } else if m.protocol_version != PROTOCOL_VERSION {
        Some(
            "plugin '"@ + m.id@ + "' targets protocol "@ + nat_digits(m.protocol_version as nat)
                + " but host speaks "@ + nat_digits(PROTOCOL_VERSION as nat),
        )
    } else if m.activation.mode == ActivationMode::Keyword && !has_keyword(m.activation) {
        Some("plugin '"@ + m.id@ + "' uses keyword activation but defines no keyword"@)
    } else {
        None
    }
}

fn is_blank(s: &str) -> (r: bool)
    ensures
        r == (trim(s@).len() == 0),
{
    trim_chars(&chars_of(s)).len() == 0
}

fn decimal(n: u32) -> (r: String)
    ensures
        r@ == nat_digits(n as nat),
{
    let mut v: Vec<char> = Vec::new();
    push_digits(n as u128, &mut v);
    assert(v@ =~= nat_digits(n as nat));
    string_of(&v)
}

/// Check a parsed manifest; the error is the message shown to the user.
pub fn validate(manifest: &Manifest) -> (r: Result<(), String>)
    ensures
        match r {
            Ok(()) => manifest_problem(*manifest) is None,
            Err(e) => manifest_problem(*manifest) == Some(e@),
        },
{
    let id = manifest.id.as_str();
    if is_blank(id) {
        return Err("manifest id is empty".to_owned());
    }
    if manifest.entry.len() == 0 {
        return Err(cat(cat("plugin '", id).as_str(), "' has an empty entry command"));
    }
    if manifest.protocol_version != PROTOCOL_VERSION {
        let a = cat(cat("plugin '", id).as_str(), "' targets protocol ");
        let b = cat(a.as_str(), decimal(manifest.protocol_version).as_str());
        let c = cat(b.as_str(), " but host speaks ");
        return Err(cat(c.as_str(), decimal(PROTOCOL_VERSION).as_str()));
    }
    let keyed = match &manifest.activation.keyword {
        Some(k) => !is_blank(k.as_str()),
        None => false,
    };
    if manifest.activation.mode == ActivationMode::Keyword && !keyed {
        return Err(
            cat(cat("plugin '", id).as_str(), "' uses keyword activation but defines no keyword"),
        );
    }
    Ok(())
}

// ---------------------------------------------------------------------------
// Which plugins take part in a query
// ---------------------------------------------------------------------------

/// `query` starts with `keyword` as a word of its own: the keyword is the
/// whole query or is followed by a space.
pub open spec fn keyword_prefix(query: Seq<char>, keyword: Seq<char>) -> bool {
    starts_with(query, keyword) && (query.len() == keyword.len() || query[keyword.len() as int]
        == ' ')
}

/// A plugin contributes to the root for `query` when it is global, or its
/// keyword prefixes the query.
pub open spec fn activates(a: Activation, query: Seq<char>) -> bool {
    match a.mode {
        ActivationMode::Global => true,
        ActivationMode::Keyword => a.keyword matches Some(k) && keyword_prefix(query, k@),
    }
}

fn keyword_prefix_exec(query: &[char], keyword: &[char]) -> (r: bool)
    ensures
        r == keyword_prefix(query@, keyword@),
{
    if !starts_with_exec(query, keyword) {
        return false;
    }
    query.len() == keyword.len() || query[keyword.len()] == ' '
}

/// Whether a plugin with `activation` contributes for (trimmed) `query`.
pub fn activation_matches(activation: &Activation, query: &str) -> (r: bool)
    ensures
        r == activates(*activation, query@),
{
    match activation.mode {
        ActivationMode::Global => true,
        ActivationMode::Keyword => match &activation.keyword {
            Some(k) => keyword_prefix_exec(&chars_of(query), &chars_of(k.as_str())),
            None => false,
        },
    }
}

/// The discovered plugins and those disabled for this session (protocol
/// mismatch or malformed output). The disabled ids are a list read as a set
/// (only membership counts), for the same reason as the usage counts: a
/// hash set keyed by text has no specification to prove against.
pub struct PluginRegistry {
    pub plugins: Vec<Plugin>,
    pub disabled: Vec<String>,
}

/// `id` is among the disabled plugin ids.
pub open spec fn is_disabled(disabled: Seq<String>, id: Seq<char>) -> bool {
    exists|i: int| 0 <= i < disabled.len() && (#[trigger] disabled[i])@ == id
}

/// The ids of the enabled plugins of `ps` that activate for `q`, in order.
pub open spec fn contributors(ps: Seq<Plugin>, disabled: Seq<String>, q: Seq<char>) -> Seq<Seq<char>>
    decreases ps.len(),
{
    if ps.len() == 0 {
        seq![]
    } else {
        let head = contributors(ps.drop_last(), disabled, q);
        let p = ps.last();
        if !is_disabled(disabled, p.manifest.id@) && activates(p.manifest.activation, q) {
            head.push(p.manifest.id@)
        } else {
            head
        }
    }
}

/// What the keyword plugin `p` makes of `query` (already trimmed at the
/// start): its id and the text after the keyword, when its keyword prefixes
/// the query as a word.
pub open spec fn keyword_hit(p: Plugin, query: Seq<char>) -> Option<(Seq<char>, Seq<char>)> {
    let a = p.manifest.activation;
    if a.mode == ActivationMode::Keyword && a.keyword is Some && keyword_prefix(
        query,
        a.keyword.unwrap()@,
    ) {
        Some(
            (
                p.manifest.id@,
                trim_start(query.subrange(a.keyword.unwrap()@.len() as int, query.len() as int)),
            ),
        )
    } else {
        None
    }
}

/// The first enabled plugin from position `i` on whose keyword prefixes `query`.
pub open spec fn first_keyword_hit(ps: Seq<Plugin>, disabled: Seq<String>, query: Seq<char>, i: int) -> Option<
    (Seq<char>, Seq<char>),
>
    decreases ps.len() - i,
{
    if i < 0 || i >= ps.len() {
        None
    } else if !is_disabled(disabled, ps[i].manifest.id@) && keyword_hit(ps[i], query) is Some {
        keyword_hit(ps[i], query)
    } else {
        first_keyword_hit(ps, disabled, query, i + 1)
    }
}

/// The first plugin of `ps` with id `id`.
pub open spec fn plugin_index(ps: Seq<Plugin>, id: Seq<char>, i: int) -> Option<int>
    decreases ps.len() - i,
{
    if i < 0 || i >= ps.len() {
        None
    } else if ps[i].manifest.id@ == id {
        Some(i)
    } else {
        plugin_index(ps, id, i + 1)
    }
}

/// What starting a plugin on demand comes to.
pub enum StartPlan {
    /// Its process is running already.
    Running,
    /// It was disabled for this session.
    Disabled,
    /// No discovered plugin has the id.
    Unknown,
    /// Spawn `argv` in the plugin's directory `dir`.
    Spawn { argv: Vec<String>, dir: String },
}

impl PluginRegistry {
    /// A registry of `plugins`, none disabled.
    pub fn new(plugins: Vec<Plugin>) -> (r: Self)
        ensures
            r.plugins@ == plugins@,
            r.disabled@.len() == 0,
    {
        PluginRegistry { plugins, disabled: Vec::new() }
    }

    /// How to make sure plugin `id` runs, when `running` says whether its
    /// process is up: nothing to do when it is; refused when it is disabled
    /// or unknown; else the launch command of the first plugin with that id,
    /// to be spawned in its directory.
    pub fn start_plan(&self, id: &str, running: bool) -> (r: StartPlan)
        ensures
            running ==> r is Running,
            !running && is_disabled(self.disabled@, id@) ==> r is Disabled,
            !running && !is_disabled(self.disabled@, id@) ==> match plugin_index(self.plugins@, id@, 0) {
                None => r is Unknown,
                Some(k) => r matches StartPlan::Spawn { argv, dir } && argv@ == self.plugins@[k].manifest.entry@
                    && dir@ == self.plugins@[k].dir@,
            },
    {
        if running {
            return StartPlan::Running;
        }
        if self.is_disabled(id) {
            return StartPlan::Disabled;
        }
        let mut i: usize = 0;
        while i < self.plugins.len()
            invariant
                !running,
                !is_disabled(self.disabled@, id@),
                i <= self.plugins@.len(),
                plugin_index(self.plugins@, id@, 0) == plugin_index(self.plugins@, id@, i as int),
            decreases self.plugins@.len() - i,
        {
            if str_eq(self.plugins[i].manifest.id.as_str(), id) {
                let p = &self.plugins[i];
                return StartPlan::Spawn { argv: p.launch_argv(), dir: p.dir.clone() };
            }
            i = i + 1;
        }
        StartPlan::Unknown
    }

    /// Whether plugin `id` was disabled for this session.
    pub fn is_disabled(&self, id: &str) -> (r: bool)
        ensures
            r == is_disabled(self.disabled@, id@),
    {
        let mut i: usize = 0;
        while i < self.disabled.len()
            invariant
                i <= self.disabled@.len(),
                forall|k: int| 0 <= k < i ==> (#[trigger] self.disabled@[k])@ != id@,
            decreases self.disabled@.len() - i,
        {
            if str_eq(self.disabled[i].as_str(), id) {
                return true;
            }
            i = i + 1;
        }
        false
    }

    /// Disable plugin `id` for the rest of the session.
    pub fn disable(&mut self, id: &str)
        ensures
            final(self).plugins@ == old(self).plugins@,
            is_disabled(final(self).disabled@, id@),
            forall|x: Seq<char>|
                x != id@ ==> (is_disabled(final(self).disabled@, x) == is_disabled(
                    old(self).disabled@,
                    x,
                )),
    {
        if !self.is_disabled(id) {
            let ghost before = self.disabled@;
            self.disabled.push(id.to_owned());
            proof {
                assert(self.disabled@[before.len() as int]@ == id@);
                assert forall|x: Seq<char>| x != id@ implies (is_disabled(self.disabled@, x)
                    == is_disabled(before, x)) by {
                    if is_disabled(self.disabled@, x) {
                        let i = choose|i: int|
                            0 <= i < self.disabled@.len() && (#[trigger] self.disabled@[i])@ == x;
                        assert(i < before.len());
                        assert(before[i] == self.disabled@[i]);
                    }
                    if is_disabled(before, x) {
                        let i = choose|i: int| 0 <= i < before.len() && (#[trigger] before[i])@ == x;
                        assert(self.disabled@[i] == before[i]);
                    }
                }
            }
        }
    }

    /// Plugins whose contributions should be requested for `query`: every
    /// enabled global plugin, plus the enabled keyword plugins whose keyword
    /// prefixes the trimmed query.
    pub fn contributors_for(&self, query: &str) -> (r: Vec<String>)
        ensures
            r@.len() == contributors(self.plugins@, self.disabled@, trim(query@)).len(),
            forall|i: int|
                0 <= i < r@.len() ==> (#[trigger] r@[i])@ == contributors(
                    self.plugins@,
                    self.disabled@,
                    trim(query@),
                )[i],
    {
        let trimmed = string_of(&trim_chars(&chars_of(query)));
        let ghost q = trim(query@);
        let mut out: Vec<String> = Vec::new();
        let mut i: usize = 0;
        while i < self.plugins.len()
            invariant
                trimmed@ == q,
                i <= self.plugins@.len(),
                out@.len() == contributors(self.plugins@.subrange(0, i as int), self.disabled@, q).len(),
                forall|k: int|
                    0 <= k < out@.len() ==> (#[trigger] out@[k])@ == contributors(
                        self.plugins@.subrange(0, i as int),
                        self.disabled@,
                        q,
                    )[k],
            decreases self.plugins@.len() - i,
        {
            assert(self.plugins@.subrange(0, i + 1).drop_last() =~= self.plugins@.subrange(
                0,
                i as int,
            ));
            let p = &self.plugins[i];
            if !self.is_disabled(p.manifest.id.as_str()) && activation_matches(
                &p.manifest.activation,
                trimmed.as_str(),
            ) {
                out.push(p.manifest.id.clone());
            }
            i = i + 1;
        }
        assert(self.plugins@.subrange(0, self.plugins@.len() as int) =~= self.plugins@);
        out
    }

    /// If `query` (leading whitespace ignored) begins with an enabled
    /// plugin's keyword (`w …`), that plugin's id and the text after the
    /// keyword, leading whitespace removed.
    pub fn keyword_match(&self, query: &str) -> (r: Option<(String, String)>)
        ensures
            match r {
                Some((id, rest)) => first_keyword_hit(
                    self.plugins@,
                    self.disabled@,
                    trim_start(query@),
                    0,
                ) == Some((id@, rest@)),
                None => first_keyword_hit(self.plugins@, self.disabled@, trim_start(query@), 0) is None,
            },
    {
        let qc = chars_of(query);
        let start = trim_start_index(&qc);
        let t = sub_chars(&qc, start, qc.len());
        assert(t@ == trim_start(query@));
        let mut i: usize = 0;
        while i < self.plugins.len()
            invariant
                t@ == trim_start(query@),
                i <= self.plugins@.len(),
                first_keyword_hit(self.plugins@, self.disabled@, t@, 0) == first_keyword_hit(
                    self.plugins@,
                    self.disabled@,
                    t@,
                    i as int,
                ),
            decreases self.plugins@.len() - i,
        {
            let p = &self.plugins[i];
            if !self.is_disabled(p.manifest.id.as_str()) && p.manifest.activation.mode
                == ActivationMode::Keyword {
                match &p.manifest.activation.keyword {
                    Some(k) => {
                        let kc = chars_of(k.as_str());
                        if keyword_prefix_exec(&t, &kc) {
                            let rest = sub_chars(&t, kc.len(), t.len());
                            let rs = trim_start_index(&rest);
                            let tail = sub_chars(&rest, rs, rest.len());
                            assert(tail@ == trim_start(rest@));
                            return Some((p.manifest.id.clone(), string_of(&tail)));
                        }
                    },
                    None => {},
                }
            }
            i = i + 1;
        }
        None
    }

    /// Add a discovered plugin unless one with the same id came first
    /// (directories are scanned in priority order); whether it was added.
    pub fn add(&mut self, plugin: Plugin) -> (r: bool)
        ensures
            r == (plugin_index(old(self).plugins@, plugin.manifest.id@, 0) is None),
            r ==> final(self).plugins@ == old(self).plugins@.push(plugin),
            !r ==> final(self).plugins@ == old(self).plugins@,
            final(self).disabled@ == old(self).disabled@,
    {
        let known = match self.manifest(plugin.manifest.id.as_str()) {
            Some(_) => true,
            None => false,
        };
        if known {
            false
        } else {
            self.plugins.push(plugin);
            true
        }
    }

    /// The manifest of the discovered plugin `id`.
    pub fn manifest(&self, id: &str) -> (r: Option<&Manifest>)
        ensures
            match plugin_index(self.plugins@, id@, 0) {
                Some(i) => r == Some(&self.plugins@[i].manifest),
                None => r is None,
            },
    {
        let mut i: usize = 0;
        while i < self.plugins.len()
            invariant
                i <= self.plugins@.len(),
                plugin_index(self.plugins@, id@, 0) == plugin_index(self.plugins@, id@, i as int),
            decreases self.plugins@.len() - i,
        {
            if str_eq(self.plugins[i].manifest.id.as_str(), id) {
                return Some(&self.plugins[i].manifest);
            }
            i = i + 1;
        }
        None
    }
}

/// A disabled plugin is never asked to contribute, whatever the query.
pub proof fn lemma_disabled_plugins_never_contribute(
    ps: Seq<Plugin>,
    disabled: Seq<String>,
    q: Seq<char>,
    id: Seq<char>,
)
    requires
        is_disabled(disabled, id),
    ensures
        !contributors(ps, disabled, q).contains(id),
    decreases ps.len(),
{
    if ps.len() > 0 {
        lemma_disabled_plugins_never_contribute(ps.drop_last(), disabled, q, id);
        let head = contributors(ps.drop_last(), disabled, q);
        let p = ps.last();
        if !is_disabled(disabled, p.manifest.id@) && activates(p.manifest.activation, q) {
            assert(p.manifest.id@ != id);
            assert forall|i: int| 0 <= i < head.push(p.manifest.id@).len() implies head.push(
                p.manifest.id@,
            )[i] != id by {
                if i < head.len() {
                    assert(head.push(p.manifest.id@)[i] == head[i]);
                }
            }
        }
    }
}

/// Nor is its keyword ever matched.
pub proof fn lemma_disabled_plugins_never_match(
    ps: Seq<Plugin>,
    disabled: Seq<String>,
    query: Seq<char>,
    i: int,
    id: Seq<char>,
)
    requires
        is_disabled(disabled, id),
    ensures
        first_keyword_hit(ps, disabled, query, i) matches Some((hit, _)) ==> hit != id,
    decreases ps.len() - i,
{
    if 0 <= i < ps.len() {
        lemma_disabled_plugins_never_match(ps, disabled, query, i + 1, id);
    }
}

// ---------------------------------------------------------------------------
// Routing plugin messages around the handshake
// ---------------------------------------------------------------------------

/// What the host does with a message from a plugin.
#[derive(Clone, Copy, Debug, PartialEq, Eq, Structural)]
pub enum Routing {
    /// Drop it (sent before the handshake completed).
    Ignore,
    /// The handshake completed with a matching protocol: the plugin is ready.
    MarkReady,
    /// The plugin speaks another protocol: stop and disable it.
    Disable,
    /// Deliver it (results, views, host calls, logging).
    Deliver,
}

/// The routing of `m` from a plugin whose handshake is (`ready`) or is not
/// yet complete. Everything but the handshake reply and logging waits for a
/// completed handshake.
pub open spec fn routing_of(ready: bool, m: PluginMessage) -> Routing {
    match m {
        PluginMessage::Initialized { protocol_version, .. } => if protocol_version
            == PROTOCOL_VERSION {
            Routing::MarkReady
        } else {
            Routing::Disable
        },
        PluginMessage::Log { .. } => Routing::Deliver,
        _ => if ready {
            Routing::Deliver
        } else {
            Routing::Ignore
        },
    }
}

/// Route a decoded plugin message: the handshake is handled by the host,
/// everything else is delivered once the plugin is ready.
pub fn route_message(ready: bool, message: &PluginMessage) -> (r: Routing)
    ensures
        r == routing_of(ready, *message),
{
    match message {
        PluginMessage::Initialized { protocol_version, .. } => if *protocol_version
            == PROTOCOL_VERSION {
            Routing::MarkReady
        } else {
            Routing::Disable
        },
        PluginMessage::Log { .. } => Routing::Deliver,
        _ => if ready {
            Routing::Deliver
        } else {
            Routing::Ignore
        },
    }
}

} // verus!
