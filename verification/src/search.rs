//! Unified search across every result source. App ranking, the calculator
//! and system commands all produce a common [`SearchResult`], so the UI can
//! render and act on them uniformly; plugin contributions are merged in
//! before [`finalize`] ranks and caps the list.

use crate::calc::{calc_result, evaluate};
use crate::db::{normalize_query, normalized_query, stats_of, StatsSnapshot};
use crate::desktop::{same_entry, DesktopEntry};
use crate::i18n::{badge_system, calc_hint, pick, subtitle_of, title_of, Lang};
use crate::proto::ResultItem;
use crate::rank::{app_match_score, app_points, unix_now, usage_points, usage_score_at};
use crate::ranking::{
    key_views, lemma_ranked_in_order, lemma_top_ranked_unique, precedes, select_top, top_ranked,
};
use crate::system::{command_points, command_table, commands, SystemCommand};
use crate::text::{cat, chars_of, lowercase, to_lower};
use vstd::prelude::*;

verus! {

/// How many results the launcher shows.
pub const MAX_RESULTS: usize = 12;

/// What activating a result does.
#[derive(Clone, Debug)]
pub enum Action {
    /// Launch a discovered desktop application.
    Launch(DesktopEntry),
    /// Run a fixed command (system actions).
    Run(Vec<String>),
    /// Copy text to the clipboard (calculator results).
    Copy(String),
    /// Enter a plugin view session for this item.
    OpenPlugin { plugin_id: String, command_id: String, item_id: String },
}

/// A short category label shown as a badge in the result row.
#[derive(Clone, Debug, PartialEq, Eq)]
pub enum Kind {
    App,
    Calculator,
    System,
    /// A contribution from a plugin; carries the plugin's display name.
    Plugin(String),
}

impl Kind {
    /// The badge text: none for apps, `=` for the calculator, the localized
    /// "System" for system actions, the plugin's name for plugin items.
    pub fn badge(&self, lang: Lang) -> (r: Option<String>)
        ensures
            match *self {
                Kind::App => r is None,
                Kind::Calculator => r matches Some(b) && b@ == "="@,
                Kind::System => r matches Some(b) && b@ == pick(lang, "System", "System")@,
                Kind::Plugin(name) => r == Some(name),
            },
    {
        match self {
            Kind::App => None,
            Kind::Calculator => Some("=".to_owned()),
            Kind::System => Some(badge_system(lang).to_owned()),
            Kind::Plugin(name) => Some(name.clone()),
        }
    }
}

/// One renderable, actionable search result.
#[derive(Clone, Debug)]
pub struct SearchResult {
    pub title: String,
    pub subtitle: Option<String>,
    pub icon: Option<String>,
    pub kind: Kind,
    pub score: i64,
    /// History key for usage learning; `None` means the result is not recorded.
    pub history_key: Option<String>,
    pub action: Action,
}

// ---------------------------------------------------------------------------
// Ranking
// ---------------------------------------------------------------------------

/// The ranking keys of results: score and lowercased title.
pub open spec fn result_keys(s: Seq<SearchResult>) -> Seq<(i64, Seq<char>)> {
    Seq::new(s.len(), |i: int| (s[i].score, lowercase(s[i].title@)))
}

/// Rank a merged set of results (core and plugin) and keep the first `max`:
/// highest score first, equal scores by case-insensitive title, equal keys in
/// their incoming order.
pub fn finalize_top(results: Vec<SearchResult>, max: usize) -> (r: Vec<SearchResult>)
    ensures
        r@.len() == (if results@.len() < max {
            results@.len()
        } else {
            max as nat
        }),
        exists|p: Seq<int>|
            top_ranked(result_keys(results@), p, r@.len() as int) && forall|k: int|
                0 <= k < r@.len() ==> #[trigger] r@[k] == results@[p[k]],
{
    let mut keys: Vec<(i64, Vec<char>)> = Vec::new();
    let mut j: usize = 0;
    while j < results.len()
        invariant
            j <= results@.len(),
            keys@.len() == j,
            forall|t: int|
                0 <= t < j ==> ((#[trigger] keys@[t]).0, keys@[t].1@) == result_keys(results@)[t],
        decreases results@.len() - j,
    {
        let title = chars_of(to_lower(results[j].title.as_str()).as_str());
        keys.push((results[j].score, title));
        j = j + 1;
    }
    assert(key_views(keys@) =~= result_keys(results@));
    select_top(results, keys, max)
}

/// Rank a merged set of results and cap it to [`MAX_RESULTS`].
pub fn finalize(results: Vec<SearchResult>) -> (r: Vec<SearchResult>)
    ensures
        r@.len() == (if results@.len() < MAX_RESULTS {
            results@.len()
        } else {
            MAX_RESULTS as nat
        }),
        exists|p: Seq<int>|
            top_ranked(result_keys(results@), p, r@.len() as int) && forall|k: int|
                0 <= k < r@.len() ==> #[trigger] r@[k] == results@[p[k]],
{
    finalize_top(results, MAX_RESULTS)
}

/// The ranking is determined: any two results that [`finalize`]'s contract
/// allows for `x` are the same list, the stable sort of `x` by (score
/// descending, lowercased title) cut after [`MAX_RESULTS`].
pub proof fn lemma_finalize_determined(
    x: Seq<SearchResult>,
    r1: Seq<SearchResult>,
    p1: Seq<int>,
    r2: Seq<SearchResult>,
    p2: Seq<int>,
)
    requires
        r1.len() == r2.len(),
        top_ranked(result_keys(x), p1, r1.len() as int),
        forall|k: int| 0 <= k < r1.len() ==> #[trigger] r1[k] == x[p1[k]],
        top_ranked(result_keys(x), p2, r2.len() as int),
        forall|k: int| 0 <= k < r2.len() ==> #[trigger] r2[k] == x[p2[k]],
    ensures
        r1 == r2,
{
    lemma_top_ranked_unique(result_keys(x), p1, p2, r1.len() as int);
    assert forall|k: int| 0 <= k < r1.len() implies r1[k] == r2[k] by {
        assert(r1[k] == x[p1[k]]);
        assert(r2[k] == x[p2[k]]);
    }
    assert(r1 =~= r2);
}

/// Ranking is idempotent: ranking the results of a ranking again gives them
/// back unchanged. `r` is what [`finalize`] makes of `x` (by the ranking
/// `p`), and `r2` what it makes of `r` (by `q`).
pub proof fn lemma_finalize_idempotent(
    x: Seq<SearchResult>,
    r: Seq<SearchResult>,
    p: Seq<int>,
    r2: Seq<SearchResult>,
    q: Seq<int>,
)
    requires
        r.len() == (if x.len() < MAX_RESULTS {
            x.len()
        } else {
            MAX_RESULTS as nat
        }),
        top_ranked(result_keys(x), p, r.len() as int),
        forall|k: int| 0 <= k < r.len() ==> #[trigger] r[k] == x[p[k]],
        r2.len() == (if r.len() < MAX_RESULTS {
            r.len()
        } else {
            MAX_RESULTS as nat
        }),
        top_ranked(result_keys(r), q, r2.len() as int),
        forall|k: int| 0 <= k < r2.len() ==> #[trigger] r2[k] == r[q[k]],
    ensures
        r2 == r,
{
    let ks = result_keys(x);
    let kr = result_keys(r);
    assert forall|k: int| 0 <= k < r.len() implies #[trigger] kr[k] == ks[p[k]] by {
        assert(r[k] == x[p[k]]);
    }
    assert forall|i: int, j: int| 0 <= i < j < kr.len() implies #[trigger] precedes(kr, i, j) by {
        assert(precedes(ks, p[i], p[j]));
        assert(kr[i] == ks[p[i]]);
        assert(kr[j] == ks[p[j]]);
    }
    lemma_ranked_in_order(kr, q);
    assert forall|k: int| 0 <= k < r.len() implies r2[k] == r[k] by {
        assert(q[k] == k);
    }
    assert(r2 =~= r);
}

// ---------------------------------------------------------------------------
// The sources
// ---------------------------------------------------------------------------

/// The usage bonus of history key `key` in `snapshot` at time `now`.
pub open spec fn usage_of(snapshot: StatsSnapshot, key: Seq<char>, now: int) -> i64 {
    usage_points(stats_of(snapshot.global_view(), snapshot.query_view(), key), now)
}

/// The apps of `apps` that match the (normalized) query `q`, in order.
pub open spec fn matching_apps(apps: Seq<DesktopEntry>, q: Seq<char>) -> Seq<DesktopEntry>
    decreases apps.len(),
{
    if apps.len() == 0 {
        seq![]
    } else {
        let head = matching_apps(apps.drop_last(), q);
        if app_points(apps.last(), q) is Some {
            head.push(apps.last())
        } else {
            head
        }
    }
}

/// The system actions of `cmds` that match the (normalized) query `q`.
pub open spec fn matching_commands(cmds: Seq<SystemCommand>, q: Seq<char>, lang: Lang) -> Seq<
    SystemCommand,
>
    decreases cmds.len(),
{
    if cmds.len() == 0 {
        seq![]
    } else {
        let head = matching_commands(cmds.drop_last(), q, lang);
        if command_points(cmds.last(), q, lang) is Some {
            head.push(cmds.last())
        } else {
            head
        }
    }
}

/// `r` is the row of app `app` for query `q`: its name, generic name (else
/// comment) and icon, its match score plus its usage bonus, recorded under
/// its path, launching it.
pub open spec fn is_app_result(
    r: SearchResult,
    app: DesktopEntry,
    q: Seq<char>,
    snapshot: StatsSnapshot,
    now: int,
) -> bool {
    &&& r.title == app.name
    &&& r.subtitle == (if app.generic_name is Some {
        app.generic_name
    } else {
        app.comment
    })
    &&& r.icon == app.icon
    &&& r.kind == Kind::App
    &&& r.score == (app_points(app, q).unwrap() + usage_of(snapshot, app.path@, now)) as i64
    &&& r.history_key == Some(app.path)
    &&& r.action matches Action::Launch(e) && same_entry(e, app)
}

/// `r` is the row of system action `cmd` for query `q`: localized title and
/// subtitle, its icon, its match score plus its usage bonus, recorded under
/// its id, running its command line.
pub open spec fn is_system_result(
    r: SearchResult,
    cmd: SystemCommand,
    q: Seq<char>,
    snapshot: StatsSnapshot,
    lang: Lang,
    now: int,
) -> bool {
    &&& r.title@ == title_of(cmd.id@, lang)@
    &&& r.subtitle matches Some(st) && st@ == subtitle_of(cmd.id@, lang)@
    &&& r.icon matches Some(ic) && ic@ == cmd.icon@
    &&& r.kind == Kind::System
    &&& r.score == (command_points(cmd, q, lang).unwrap() + usage_of(snapshot, cmd.id@, now)) as i64
    &&& r.history_key matches Some(h) && h@ == cmd.id@
    &&& r.action matches Action::Run(argv) && argv@.len() == cmd.command@.len() && forall|i: int|
        0 <= i < argv@.len() ==> (#[trigger] argv@[i])@ == cmd.command@[i]@
}

/// `r` is the calculator row for the formatted value `value`: it outranks a
/// typical app match (score 11000), is not recorded, and copies the value.
pub open spec fn is_calc_result(r: SearchResult, value: Seq<char>, lang: Lang) -> bool {
    &&& r.title@ == value
    &&& r.subtitle matches Some(st) && st@ == pick(
        lang,
        "Press Enter to copy the result",
        "Enter kopiert das Ergebnis",
    )@
    &&& r.icon matches Some(ic) && ic@ == "accessories-calculator"@
    &&& r.kind == Kind::Calculator
    &&& r.score == 11000
    &&& r.history_key is None
    &&& r.action matches Action::Copy(c) && c@ == value
}

/// `r` holds the core results for `query`: for a non-blank normalized query
/// the calculator row (when the query is an expression) and the matching
/// system actions of `cmds`, then the matching apps, each in source order.
pub open spec fn is_core_results(
    r: Seq<SearchResult>,
    apps: Seq<DesktopEntry>,
    query: Seq<char>,
    snapshot: StatsSnapshot,
    lang: Lang,
    now: int,
    cmds: Seq<SystemCommand>,
) -> bool {
    let q = normalized_query(query);
    let calc = if q.len() > 0 {
        calc_result(q)
    } else {
        None
    };
    let nc: int = if calc is Some {
        1
    } else {
        0
    };
    let sys = if q.len() > 0 {
        matching_commands(cmds, q, lang)
    } else {
        seq![]
    };
    let am = matching_apps(apps, q);
    &&& r.len() == nc + sys.len() + am.len()
    &&& (calc matches Some(v) ==> is_calc_result(r[0], v, lang))
    &&& forall|j: int|
        0 <= j < sys.len() ==> is_system_result(#[trigger] r[nc + j], sys[j], q, snapshot, lang, now)
    &&& forall|j: int|
        0 <= j < am.len() ==> is_app_result(#[trigger] r[nc + sys.len() + j], am[j], q, snapshot, now)
}

fn calculator_result(normalized: &str, lang: Lang) -> (r: Option<SearchResult>)
    ensures
        match r {
            Some(x) => calc_result(normalized@) matches Some(v) && is_calc_result(x, v, lang),
            None => calc_result(normalized@) is None,
        },
{
    let value = match evaluate(normalized) {
        Some(v) => v,
        None => return None,
    };
    Some(
        SearchResult {
            title: value.clone(),
            subtitle: Some(calc_hint(lang).to_owned()),
            icon: Some("accessories-calculator".to_owned()),
            kind: Kind::Calculator,
            score: 11000,
            history_key: None,
            action: Action::Copy(value),
        },
    )
}

fn owned_argv(argv: &Vec<&'static str>) -> (r: Vec<String>)
    ensures
        r@.len() == argv@.len(),
        forall|i: int| 0 <= i < r@.len() ==> (#[trigger] r@[i])@ == argv@[i]@,
{
    let mut out: Vec<String> = Vec::new();
    let mut i: usize = 0;
    while i < argv.len()
        invariant
            i <= argv@.len(),
            out@.len() == i,
            forall|k: int| 0 <= k < i ==> (#[trigger] out@[k])@ == argv@[k]@,
        decreases argv@.len() - i,
    {
        out.push(argv[i].to_owned());
        i = i + 1;
    }
    out
}

fn system_results(
    cmds: &Vec<SystemCommand>,
    normalized: &str,
    snapshot: &StatsSnapshot,
    lang: Lang,
    now: i64,
) -> (r: Vec<SearchResult>)
    ensures
        r@.len() == matching_commands(cmds@, normalized@, lang).len(),
        forall|j: int|
            0 <= j < r@.len() ==> is_system_result(
                #[trigger] r@[j],
                matching_commands(cmds@, normalized@, lang)[j],
                normalized@,
                *snapshot,
                lang,
                now as int,
            ),
{
    let mut out: Vec<SearchResult> = Vec::new();
    let mut i: usize = 0;
    while i < cmds.len()
        invariant
            i <= cmds@.len(),
            out@.len() == matching_commands(cmds@.subrange(0, i as int), normalized@, lang).len(),
            forall|j: int|
                0 <= j < out@.len() ==> is_system_result(
                    #[trigger] out@[j],
                    matching_commands(cmds@.subrange(0, i as int), normalized@, lang)[j],
                    normalized@,
                    *snapshot,
                    lang,
                    now as int,
                ),
        decreases cmds@.len() - i,
    {
        let command = &cmds[i];
        let ghost pre = cmds@.subrange(0, i as int);
        assert(cmds@.subrange(0, i + 1).drop_last() =~= pre);
        match command.match_score(normalized, lang) {
            Some(base) => {
                let usage = usage_score_at(&snapshot.stats_for(command.id), now);
                let score = (base as i128 + usage as i128) as i64;
                out.push(
                    SearchResult {
                        title: command.title(lang).to_owned(),
                        subtitle: Some(command.subtitle(lang).to_owned()),
                        icon: Some(command.icon.to_owned()),
                        kind: Kind::System,
                        score,
                        history_key: Some(command.id.to_owned()),
                        action: Action::Run(owned_argv(&command.command)),
                    },
                );
            },
            None => {},
        }
        i = i + 1;
    }
    assert(cmds@.subrange(0, cmds@.len() as int) =~= cmds@);
    out
}

fn app_results(
    apps: &[DesktopEntry],
    normalized: &str,
    snapshot: &StatsSnapshot,
    now: i64,
) -> (r: Vec<SearchResult>)
    ensures
        r@.len() == matching_apps(apps@, normalized@).len(),
        forall|j: int|
            0 <= j < r@.len() ==> is_app_result(
                #[trigger] r@[j],
                matching_apps(apps@, normalized@)[j],
                normalized@,
                *snapshot,
                now as int,
            ),
{
    let mut out: Vec<SearchResult> = Vec::new();
    let mut i: usize = 0;
    while i < apps.len()
        invariant
            i <= apps@.len(),
            out@.len() == matching_apps(apps@.subrange(0, i as int), normalized@).len(),
            forall|j: int|
                0 <= j < out@.len() ==> is_app_result(
                    #[trigger] out@[j],
                    matching_apps(apps@.subrange(0, i as int), normalized@)[j],
                    normalized@,
                    *snapshot,
                    now as int,
                ),
        decreases apps@.len() - i,
    {
        let app = &apps[i];
        let ghost pre = apps@.subrange(0, i as int);
        assert(apps@.subrange(0, i + 1).drop_last() =~= pre);
        match app_match_score(app, normalized) {
            Some(base) => {
                let usage = usage_score_at(&snapshot.stats_for(app.path.as_str()), now);
                let score = (base as i128 + usage as i128) as i64;
                let subtitle = match &app.generic_name {
                    Some(g) => Some(g.clone()),
                    None => match &app.comment {
                        Some(c) => Some(c.clone()),
                        None => None,
                    },
                };
                let icon = match &app.icon {
                    Some(c) => Some(c.clone()),
                    None => None,
                };
                out.push(
                    SearchResult {
                        title: app.name.clone(),
                        subtitle,
                        icon,
                        kind: Kind::App,
                        score,
                        history_key: Some(app.path.clone()),
                        action: Action::Launch(app.duplicate()),
                    },
                );
            },
            None => {},
        }
        i = i + 1;
    }
    assert(apps@.subrange(0, apps@.len() as int) =~= apps@);
    out
}

/// The core results (calculator, system actions, apps) for `query` at time
/// `now`, unranked and untruncated so plugin contributions can be merged in
/// before [`finalize`].
pub fn core_results_at(
    apps: &[DesktopEntry],
    query: &str,
    snapshot: &StatsSnapshot,
    lang: Lang,
    now: i64,
) -> (r: Vec<SearchResult>)
    ensures
        exists|cmds: Seq<SystemCommand>|
            command_table(cmds) && is_core_results(
                r@,
                apps@,
                query@,
                *snapshot,
                lang,
                now as int,
                cmds,
            ),
{
    let normalized = normalize_query(query);
    let cmds = commands();
    let mut results: Vec<SearchResult> = Vec::new();
    if !normalized.as_str().is_empty() {
        match calculator_result(normalized.as_str(), lang) {
            Some(result) => results.push(result),
            None => {},
        }
        let mut sys = system_results(&cmds, normalized.as_str(), snapshot, lang, now);
        results.append(&mut sys);
    }
    let mut found = app_results(apps, normalized.as_str(), snapshot, now);
    results.append(&mut found);
    assert(is_core_results(results@, apps@, query@, *snapshot, lang, now as int, cmds@));
    results
}

/// The core results for `query`, scored with the usage history at the
/// current time.
pub fn core_results(
    apps: &[DesktopEntry],
    query: &str,
    snapshot: &StatsSnapshot,
    lang: Lang,
) -> (r: Vec<SearchResult>)
    ensures
        exists|now: i64, cmds: Seq<SystemCommand>|
            command_table(cmds) && is_core_results(
                r@,
                apps@,
                query@,
                *snapshot,
                lang,
                now as int,
                cmds,
            ),
{
    core_results_at(apps, query, snapshot, lang, unix_now())
}

/// The ranked result list for a query across the core sources.
pub fn search(apps: &[DesktopEntry], query: &str, snapshot: &StatsSnapshot, lang: Lang) -> (r: Vec<
    SearchResult,
>)
    ensures
        exists|c: Seq<SearchResult>, now: i64, cmds: Seq<SystemCommand>, p: Seq<int>|
            command_table(cmds) && is_core_results(c, apps@, query@, *snapshot, lang, now as int, cmds)
                && r@.len() == (if c.len() < MAX_RESULTS {
                c.len()
            } else {
                MAX_RESULTS as nat
            }) && top_ranked(result_keys(c), p, r@.len() as int) && forall|k: int|
                0 <= k < r@.len() ==> #[trigger] r@[k] == c[p[k]],
{
    let core = core_results(apps, query, snapshot, lang);
    let ghost c = core@;
    let r = finalize(core);
    r
}

/// The history key of a plugin item: `plugin:<plugin id>:<item id>`.
pub open spec fn plugin_key(plugin_id: Seq<char>, item_id: Seq<char>) -> Seq<char> {
    "plugin:"@ + plugin_id + ":"@ + item_id
}

/// `r` is the root row for plugin item `item`: its texts, the plugin's name
/// as badge, the item's score hint plus the usage bonus of its history key,
/// opening the item's view session.
pub open spec fn is_plugin_result(
    r: SearchResult,
    plugin_id: Seq<char>,
    plugin_name: Seq<char>,
    item: ResultItem,
    snapshot: StatsSnapshot,
    now: int,
) -> bool {
    &&& r.title == item.title
    &&& r.subtitle == item.subtitle
    &&& r.icon == item.icon
    &&& r.kind matches Kind::Plugin(n) && n@ == plugin_name
    &&& r.score == (item.score + usage_of(snapshot, plugin_key(plugin_id, item.id@), now)) as i64
    &&& r.history_key matches Some(h) && h@ == plugin_key(plugin_id, item.id@)
    &&& r.action matches Action::OpenPlugin { plugin_id: a, command_id: c, item_id: d } && a@
        == plugin_id && c == item.command_id && d == item.id
}

/// Convert a plugin's result item into a root result at time `now`, with the
/// same launch-history boost the core results get, so a frequently used
/// plugin item climbs the ranking.
pub fn result_from_plugin_at(
    plugin_id: &str,
    plugin_name: &str,
    item: ResultItem,
    snapshot: &StatsSnapshot,
    now: i64,
) -> (r: SearchResult)
    ensures
        is_plugin_result(r, plugin_id@, plugin_name@, item, *snapshot, now as int),
{
    let history_key = cat(cat(cat("plugin:", plugin_id).as_str(), ":").as_str(), item.id.as_str());
    let usage = usage_score_at(&snapshot.stats_for(history_key.as_str()), now);
    let score = (item.score as i128 + usage as i128) as i64;
    let ghost item0 = item;
    let ResultItem { id, title, subtitle, icon, score: _, command_id, actions: _ } = item;
    SearchResult {
        title,
        subtitle,
        icon,
        kind: Kind::Plugin(plugin_name.to_owned()),
        score,
        history_key: Some(history_key),
        action: Action::OpenPlugin { plugin_id: plugin_id.to_owned(), command_id, item_id: id },
    }
}

/// [`result_from_plugin_at`] at the current time.
pub fn result_from_plugin(
    plugin_id: &str,
    plugin_name: &str,
    item: ResultItem,
    snapshot: &StatsSnapshot,
) -> (r: SearchResult)
    ensures
        exists|now: i64| is_plugin_result(r, plugin_id@, plugin_name@, item, *snapshot, now as int),
{
    result_from_plugin_at(plugin_id, plugin_name, item, snapshot, unix_now())
}

} // verus!
