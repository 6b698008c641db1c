//! Systemd user services: reading `systemctl --user list-units --plain`
//! lines, and which units must never be stopped or restarted.
//!
//! Safety-critical user units (names starting with `app-`, `plasma-`,
//! `pipewire`, `wireplumber`, `dbus`, `xdg-` or `nursearch`) are offered
//! read-only: status only, no start, stop or restart.

use crate::desktop::join_spaced;
use crate::proto;
use crate::proto::{
    opt_text, Action, ActionKind, DetailView, Item, ListView, MetaPair, ResultItem, ViewEvent,
};
use crate::rank::{occurs, occurs_in};
use crate::text::{
    cat, chars_of, lowercase, split_words, starts_with, starts_with_exec, str_eq, string_of,
    sub_chars, to_lower, words_from,
};
use vstd::prelude::*;

verus! {

/// One listed service.
#[derive(Clone, Debug)]
pub struct ServiceInfo {
    pub name: String,
    pub active: String,
    pub sub: String,
    pub description: String,
}

/// Unit name prefixes that must not be stopped or restarted.
pub open spec fn protected_prefixes() -> Seq<&'static str> {
    seq!["app-", "plasma-", "pipewire", "wireplumber", "dbus", "xdg-", "nursearch"]
}

pub open spec fn protected(name: Seq<char>) -> bool {
    exists|i: int|
        0 <= i < protected_prefixes().len() && starts_with(name, (#[trigger] protected_prefixes()[i])@)
}

/// Whether the unit `name` is safety-critical.
pub fn is_protected(name: &str) -> (r: bool)
    ensures
        r == protected(name@),
{
    let prefixes: &[&str] = &["app-", "plasma-", "pipewire", "wireplumber", "dbus", "xdg-", "nursearch"];
    assert(prefixes@ =~= protected_prefixes());
    let n = chars_of(name);
    let mut i: usize = 0;
    while i < prefixes.len()
        invariant
            prefixes@ == protected_prefixes(),
            n@ == name@,
            i <= prefixes@.len(),
            forall|k: int| 0 <= k < i ==> !starts_with(name@, (#[trigger] protected_prefixes()[k])@),
        decreases prefixes@.len() - i,
    {
        if starts_with_exec(&n, &chars_of(prefixes[i])) {
            return true;
        }
        i = i + 1;
    }
    false
}

/// `s` without its leading `●` characters.
pub open spec fn strip_bullets(s: Seq<char>) -> Seq<char>
    decreases s.len(),
{
    if s.len() > 0 && s[0] == '●' {
        strip_bullets(s.subrange(1, s.len() as int))
    } else {
        s
    }
}

/// The service a line `<unit> <load> <active> <sub> <description...>`
/// describes (columns split at whitespace; the unit loses leading `●`
/// markers; the description is the remaining words joined by single spaces).
pub open spec fn service_of(line: Seq<char>) -> Option<(Seq<char>, Seq<char>, Seq<char>, Seq<char>)> {
    let w = words_from(line, 0);
    if w.len() == 0 {
        None
    } else if strip_bullets(w[0]).len() == 0 {
        None
    } else if w.len() < 4 {
        None
    } else {
        Some((strip_bullets(w[0]), w[2], w[3], join_spaced(w.subrange(4, w.len() as int))))
    }
}

fn strip_bullets_exec(s: &[char]) -> (r: Vec<char>)
    ensures
        r@ == strip_bullets(s@),
{
    let mut i: usize = 0;
    assert(s@.subrange(0, s@.len() as int) =~= s@);
    while i < s.len() && s[i] == '●'
        invariant
            i <= s@.len(),
            strip_bullets(s@) == strip_bullets(s@.subrange(i as int, s@.len() as int)),
        decreases s@.len() - i,
    {
        assert(s@.subrange(i as int, s@.len() as int).subrange(1, s@.len() - i) =~= s@.subrange(
            i + 1,
            s@.len() as int,
        ));
        i = i + 1;
    }
    sub_chars(s, i, s.len())
}

/// Parse a `systemctl list-units --plain` line.
pub fn parse_service_line(line: &str) -> (r: Option<ServiceInfo>)
    ensures
        match r {
            Some(info) => service_of(line@) == Some(
                (info.name@, info.active@, info.sub@, info.description@),
            ),
            None => service_of(line@) is None,
        },
{
    let w = split_words(&chars_of(line));
    let ghost ws = words_from(line@, 0);
    if w.len() == 0 {
        return None;
    }
    let name = strip_bullets_exec(&w[0]);
    if name.len() == 0 {
        return None;
    }
    if w.len() < 4 {
        return None;
    }
    let mut desc: Vec<char> = Vec::new();
    let mut k: usize = 4;
    while k < w.len()
        invariant
            4 <= k <= w@.len(),
            w@.len() == ws.len(),
            forall|m: int| 0 <= m < w@.len() ==> (#[trigger] w@[m])@ == ws[m],
            desc@ == join_spaced(ws.subrange(4, k as int)),
        decreases w@.len() - k,
    {
        let ghost parts = ws.subrange(4, k as int);
        assert(ws.subrange(4, k + 1).drop_last() =~= parts);
        if k > 4 {
            desc.push(' ');
        } else {
            assert(desc@ =~= seq![]);
        }
        let ghost base = desc@;
        let word = &w[k];
        let mut j: usize = 0;
        while j < word.len()
            invariant
                j <= word@.len(),
                desc@ == base + word@.subrange(0, j as int),
            decreases word@.len() - j,
        {
            desc.push(word[j]);
            j = j + 1;
            assert(desc@ =~= base + word@.subrange(0, j as int));
        }
        assert(word@.subrange(0, word@.len() as int) =~= word@);
        proof {
            let np = ws.subrange(4, k + 1);
            if k == 4 {
                assert(desc@ =~= np[0]);
            } else {
                assert(desc@ =~= join_spaced(parts) + seq![' '] + np.last());
            }
        }
        k = k + 1;
    }
    Some(
        ServiceInfo {
            name: string_of(&name),
            active: string_of(&w[2]),
            sub: string_of(&w[3]),
            description: string_of(&desc),
        },
    )
}

/// The service is running.
pub open spec fn running(s: ServiceInfo) -> bool {
    s.active@ == "active"@
}

/// A service is listed for the lowercased filter `needle` when the needle is
/// empty or occurs in its lowercased name or description.
pub open spec fn service_matches(s: ServiceInfo, needle: Seq<char>) -> bool {
    ||| needle.len() == 0
    ||| occurs_in(lowercase(s.name@), needle)
    ||| occurs_in(lowercase(s.description@), needle)
}

/// The services listed for `filter`, in order.
pub open spec fn listed_services(services: Seq<ServiceInfo>, filter: Seq<char>) -> Seq<ServiceInfo> {
    services.filter(|s: ServiceInfo| service_matches(s, lowercase(filter)))
}

/// The actions offered on `s`: always its status; for a unit that is not
/// protected also stop and restart when it runs, start when it does not.
pub open spec fn service_actions(acts: Seq<Action>, s: ServiceInfo) -> bool {
    &&& acts.len() >= 1
    &&& acts[0].is_plugin_action("status"@, "Status"@, Some("dialog-information"@))
    &&& protected(s.name@) ==> acts.len() == 1
    &&& (!protected(s.name@) && running(s)) ==> {
        &&& acts.len() == 3
        &&& acts[1].is_plugin_action("stop"@, "Stop"@, Some("process-stop"@))
        &&& acts[2].is_plugin_action("restart"@, "Restart"@, Some("view-refresh"@))
    }
    &&& (!protected(s.name@) && !running(s)) ==> {
        &&& acts.len() == 2
        &&& acts[1].is_plugin_action("start"@, "Start"@, Some("media-playback-start"@))
    }
}

/// `item` is the list entry of `s`: its name, its description, whether it
/// runs, `active (sub)` beside it, and its actions.
pub open spec fn is_service_item(item: Item, s: ServiceInfo) -> bool {
    &&& item.shows(
        s.name@,
        s.name@,
        Some(s.description@),
        Some(
            if running(s) {
                "media-playback-start"@
            } else {
                "media-playback-stop"@
            },
        ),
    )
    &&& item.accessories@.len() == 1
    &&& item.accessories@[0]@ == s.active@ + " ("@ + s.sub@ + ")"@
    &&& service_actions(item.actions@, s)
}

fn service_item(s: &ServiceInfo) -> (r: Item)
    ensures
        is_service_item(r, *s),
{
    let is_running = str_eq(s.active.as_str(), "active");
    let mut actions: Vec<Action> = Vec::new();
    actions.push(Action::plugin("status", "Status", "dialog-information"));
    if !is_protected(s.name.as_str()) {
        if is_running {
            actions.push(Action::plugin("stop", "Stop", "process-stop"));
            actions.push(Action::plugin("restart", "Restart", "view-refresh"));
        } else {
            actions.push(Action::plugin("start", "Start", "media-playback-start"));
        }
    }
    let accessory = cat(cat(cat(s.active.as_str(), " (").as_str(), s.sub.as_str()).as_str(), ")");
    let mut accessories: Vec<String> = Vec::new();
    accessories.push(accessory);
    Item {
        id: s.name.clone(),
        title: s.name.clone(),
        subtitle: Some(s.description.clone()),
        icon: Some(
            if is_running {
                "media-playback-start"
            } else {
                "media-playback-stop"
            }.to_owned(),
        ),
        accessories,
        actions,
    }
}

/// The list of services matching `filter`, each with its actions.
pub fn service_list_view(services: &[ServiceInfo], filter: &str) -> (r: proto::View)
    ensures
        r.is_list(
            Some("Systemd User Services"@),
            Some("Filter services…"@),
            Some("No services found"@),
        ),
        r.list_items().len() == listed_services(services@, filter@).len(),
        forall|k: int|
            0 <= k < r.list_items().len() ==> is_service_item(
                #[trigger] r.list_items()[k],
                listed_services(services@, filter@)[k],
            ),
{
    let needle = chars_of(to_lower(filter).as_str());
    let ghost pred = |s: ServiceInfo| service_matches(s, lowercase(filter@));
    let mut items: Vec<Item> = Vec::new();
    let mut i: usize = 0;
    while i < services.len()
        invariant
            needle@ == lowercase(filter@),
            pred == (|s: ServiceInfo| service_matches(s, lowercase(filter@))),
            i <= services@.len(),
            items@.len() == services@.subrange(0, i as int).filter(pred).len(),
            forall|k: int|
                0 <= k < items@.len() ==> is_service_item(
                    #[trigger] items@[k],
                    services@.subrange(0, i as int).filter(pred)[k],
                ),
        decreases services@.len() - i,
    {
        proof {
            reveal(Seq::filter);
        }
        assert(services@.subrange(0, i + 1).drop_last() =~= services@.subrange(0, i as int));
        let s = &services[i];
        let keep = needle.len() == 0 || occurs(&chars_of(to_lower(s.name.as_str()).as_str()), &needle)
            || occurs(&chars_of(to_lower(s.description.as_str()).as_str()), &needle);
        if keep {
            items.push(service_item(s));
        }
        i = i + 1;
    }
    assert(services@.subrange(0, services@.len() as int) =~= services@);
    proto::View::List(
        ListView {
            title: Some("Systemd User Services".to_owned()),
            placeholder: Some("Filter services…".to_owned()),
            items,
            empty_text: Some("No services found".to_owned()),
            actions: Vec::new(),
        },
    )
}

/// The status page of the unit `name`, showing the output of
/// `systemctl --user status` as a code block (`status` is `None` when it
/// could not be had).
pub fn service_detail(name: &str, status: Option<String>) -> (r: proto::View)
    ensures
        r matches proto::View::Detail(d) && {
            let shown = match status {
                Some(out) => out@,
                None => "(could not get status)"@,
            };
            &&& opt_text(d.title) == Some(name@)
            &&& d.placeholder is None
            &&& opt_text(d.markdown) == Some("```\n"@ + shown + "\n```"@)
            &&& d.metadata@.len() == 1
            &&& d.metadata@[0].label@ == "Unit"@
            &&& d.metadata@[0].value@ == name@
            &&& d.actions@.len() == 0
        },
{
    let shown = match status {
        Some(out) => out,
        None => "(could not get status)".to_owned(),
    };
    let markdown = cat(cat("```\n", shown.as_str()).as_str(), "\n```");
    let mut metadata: Vec<MetaPair> = Vec::new();
    metadata.push(MetaPair { label: "Unit".to_owned(), value: name.to_owned() });
    proto::View::Detail(
        DetailView {
            title: Some(name.to_owned()),
            placeholder: None,
            markdown: Some(markdown),
            metadata,
            actions: Vec::new(),
        },
    )
}

/// What the services plugin does with an event of its view session.
pub enum SystemdStep {
    /// Nothing.
    Ignore,
    /// Show the list again, filtered by `text`.
    Filter { text: String },
    /// Open the status page of `unit`.
    Status { unit: String },
    /// `systemctl --user <verb> <unit>` (run only when `allowed`), then the
    /// refreshed list.
    Control { verb: String, unit: String, allowed: bool },
    /// Back to the unfiltered list.
    Back,
}

/// The step for `event`; `detail_open` when a status page is shown, where
/// typing does nothing.
pub fn systemd_step(detail_open: bool, event: &ViewEvent) -> (r: SystemdStep)
    ensures
        match event {
            ViewEvent::Input { text } => if detail_open {
                r is Ignore
            } else {
                r matches SystemdStep::Filter { text: t } && t@ == text@
            },
            ViewEvent::Action { action_id, item_id: Some(unit) } => if action_id@ == "status"@ {
                r matches SystemdStep::Status { unit: u } && u@ == unit@
            } else if action_id@ == "start"@ || action_id@ == "stop"@ || action_id@ == "restart"@ {
                r matches SystemdStep::Control { verb, unit: u, allowed } && verb@ == action_id@
                    && u@ == unit@ && allowed == !protected(unit@)
            } else {
                r is Ignore
            },
            ViewEvent::Pop => r is Back,
            _ => r is Ignore,
        },
{
    match event {
        ViewEvent::Input { text } => if detail_open {
            SystemdStep::Ignore
        } else {
            SystemdStep::Filter { text: text.clone() }
        },
        ViewEvent::Action { action_id, item_id: Some(unit) } => {
            let a = action_id.as_str();
            if str_eq(a, "status") {
                SystemdStep::Status { unit: unit.clone() }
            } else if str_eq(a, "start") || str_eq(a, "stop") || str_eq(a, "restart") {
                SystemdStep::Control {
                    verb: action_id.clone(),
                    unit: unit.clone(),
                    allowed: !is_protected(unit.as_str()),
                }
            } else {
                SystemdStep::Ignore
            }
        },
        ViewEvent::Pop => SystemdStep::Back,
        _ => SystemdStep::Ignore,
    }
}

/// The plugin's root entry.
pub fn systemd_entry() -> (r: ResultItem)
    ensures
        r.is_entry("open"@, "Systemd User Services"@, Some("List and control --user services"@), Some("application-x-executable"@), 4800),
{
    ResultItem {
        id: "open".to_owned(),
        title: "Systemd User Services".to_owned(),
        subtitle: Some("List and control --user services".to_owned()),
        icon: Some("application-x-executable".to_owned()),
        score: 4800,
        command_id: "open".to_owned(),
        actions: Vec::new(),
    }
}

} // verus!
