//! KDE Connect: the paired and reachable devices, read from
//! `kdeconnect-cli --list-available --id-name-only`, and what can be done
//! with each (ring it, ping it, send it the clipboard).

use crate::num::{nat_digits, push_digits};
use crate::proto;
use crate::proto::{Action, Item, ListView, ResultItem};
use crate::rank::{occurs, occurs_in};
use crate::text::{chars_of, lowercase, str_eq, string_of, sub_chars, to_lower, trim, trim_chars};
use vstd::prelude::*;

verus! {

/// Position of the first space in `s`, if any.
pub open spec fn first_space(s: Seq<char>, i: int) -> Option<int>
    decreases s.len() - i,
{
    if i < 0 || i >= s.len() {
        None
    } else if s[i] == ' ' {
        Some(i)
    } else {
        first_space(s, i + 1)
    }
}

/// The `(id, name)` a line `<id> <name>` names: split at the first space,
/// both parts trimmed; blank lines and lines without a space name nothing.
pub open spec fn device_of(line: Seq<char>) -> Option<(Seq<char>, Seq<char>)> {
    if trim(line).len() == 0 {
        None
    } else {
        match first_space(line, 0) {
            None => None,
            Some(i) => Some(
                (trim(line.subrange(0, i)), trim(line.subrange(i + 1, line.len() as int))),
            ),
        }
    }
}

/// Parse one line of the device list into `(id, name)`.
pub fn parse_device_line(line: &str) -> (r: Option<(String, String)>)
    ensures
        match r {
            Some((id, name)) => device_of(line@) == Some((id@, name@)),
            None => device_of(line@) is None,
        },
{
    let cs = chars_of(line);
    if trim_chars(&cs).len() == 0 {
        return None;
    }
    let mut i: usize = 0;
    while i < cs.len()
        invariant
            cs@ == line@,
            trim(cs@).len() > 0,
            i <= cs@.len(),
            first_space(cs@, 0) == first_space(cs@, i as int),
        decreases cs@.len() - i,
    {
        if cs[i] == ' ' {
            let id = trim_chars(&sub_chars(&cs, 0, i));
            let name = trim_chars(&sub_chars(&cs, i + 1, cs.len()));
            return Some((string_of(&id), string_of(&name)));
        }
        i = i + 1;
    }
    None
}

/// The one-line state under the plugin's root entry, from whether
/// `kdeconnect-cli` runs and how many devices it lists.
pub fn device_summary(available: bool, count: usize) -> (r: String)
    ensures
        !available ==> r@ == "kdeconnect-cli not found — install kdeconnect"@,
        available && count == 0 ==> r@ == "No reachable devices"@,
        available && count > 0 ==> r@ == nat_digits(count as nat) + " device(s) reachable"@,
{
    if !available {
        return "kdeconnect-cli not found — install kdeconnect".to_owned();
    }
    if count == 0 {
        return "No reachable devices".to_owned();
    }
    let mut out: Vec<char> = Vec::new();
    push_digits(count as u128, &mut out);
    let tail = chars_of(" device(s) reachable");
    let mut i: usize = 0;
    while i < tail.len()
        invariant
            i <= tail@.len(),
            out@ == nat_digits(count as nat) + tail@.subrange(0, i as int),
        decreases tail@.len() - i,
    {
        out.push(tail[i]);
        assert(tail@.subrange(0, i + 1) =~= tail@.subrange(0, i as int).push(tail@[i as int]));
        i = i + 1;
    }
    assert(tail@.subrange(0, tail@.len() as int) =~= tail@);
    string_of(&out)
}

/// The devices `(id, name)` listed for the lowercased filter `needle`.
pub open spec fn listed_devices(devices: Seq<(String, String)>, needle: Seq<char>) -> Seq<(String, String)> {
    devices.filter(|d: (String, String)| occurs_in(lowercase(d.1@), needle))
}

/// `item` is the entry of device `d`, with its three actions.
pub open spec fn is_device_item(item: Item, d: (String, String)) -> bool {
    &&& item.shows(d.0@, d.1@, Some("Reachable"@), Some("kdeconnect"@))
    &&& item.accessories@.len() == 0
    &&& item.actions@.len() == 3
    &&& item.actions@[0].is_plugin_action("ring"@, "Ring / Find Device"@, Some("audio-volume-high"@))
    &&& item.actions@[1].is_plugin_action("ping"@, "Send Ping"@, Some("network-connect"@))
    &&& item.actions@[2].is_plugin_action("clipboard"@, "Send Clipboard"@, Some("edit-paste"@))
}

fn device_item(d: &(String, String)) -> (r: Item)
    ensures
        is_device_item(r, *d),
{
    let mut actions: Vec<Action> = Vec::new();
    actions.push(Action::plugin("ring", "Ring / Find Device", "audio-volume-high"));
    actions.push(Action::plugin("ping", "Send Ping", "network-connect"));
    actions.push(Action::plugin("clipboard", "Send Clipboard", "edit-paste"));
    Item {
        id: d.0.clone(),
        title: d.1.clone(),
        subtitle: Some("Reachable".to_owned()),
        icon: Some("kdeconnect".to_owned()),
        accessories: Vec::new(),
        actions,
    }
}

/// The device list for `filter`; `devices` is `None` when `kdeconnect-cli`
/// is not installed, and the view then says which package is missing.
pub fn device_list_view(filter: &str, devices: &Option<Vec<(String, String)>>) -> (r: proto::View)
    ensures
        devices is None ==> {
            &&& r.is_list(Some("KDE Connect"@), None, None)
            &&& r.list_items().len() == 1
            &&& r.list_items()[0].shows(
                "missing"@,
                "kdeconnect-cli not found"@,
                Some("Install the 'kdeconnect' package to use this plugin"@),
                Some("dialog-warning"@),
            )
            &&& r.list_items()[0].is_bare()
        },
        devices matches Some(ds) ==> {
            let shown = listed_devices(ds@, lowercase(filter@));
            &&& r.is_list(
                Some("KDE Connect"@),
                Some("Filter devices…"@),
                Some("No reachable devices found"@),
            )
            &&& r.list_items().len() == shown.len()
            &&& forall|k: int|
                0 <= k < shown.len() ==> is_device_item(#[trigger] r.list_items()[k], shown[k])
        },
{
    let ds = match devices {
        None => {
            let mut items: Vec<Item> = Vec::new();
            items.push(
                Item::bare(
                    "missing",
                    "kdeconnect-cli not found",
                    Some("Install the 'kdeconnect' package to use this plugin"),
                    "dialog-warning",
                ),
            );
            return proto::View::List(
                ListView {
                    title: Some("KDE Connect".to_owned()),
                    placeholder: None,
                    items,
                    empty_text: None,
                    actions: Vec::new(),
                },
            );
        },
        Some(ds) => ds,
    };
    let needle = chars_of(to_lower(filter).as_str());
    let ghost nd = lowercase(filter@);
    let ghost pred = |d: (String, String)| occurs_in(lowercase(d.1@), nd);
    let mut items: Vec<Item> = Vec::new();
    let mut i: usize = 0;
    while i < ds.len()
        invariant
            needle@ == nd,
            pred == (|d: (String, String)| occurs_in(lowercase(d.1@), nd)),
            i <= ds@.len(),
            items@.len() == ds@.subrange(0, i as int).filter(pred).len(),
            forall|k: int|
                0 <= k < items@.len() ==> is_device_item(
                    #[trigger] items@[k],
                    ds@.subrange(0, i as int).filter(pred)[k],
                ),
        decreases ds@.len() - i,
    {
        proof {
            reveal(Seq::filter);
        }
        assert(ds@.subrange(0, i + 1).drop_last() =~= ds@.subrange(0, i as int));
        let d = &ds[i];
        if occurs(&chars_of(to_lower(d.1.as_str()).as_str()), &needle) {
            items.push(device_item(d));
        }
        i = i + 1;
    }
    assert(ds@.subrange(0, ds@.len() as int) =~= ds@);
    proto::View::List(
        ListView {
            title: Some("KDE Connect".to_owned()),
            placeholder: Some("Filter devices…".to_owned()),
            items,
            empty_text: Some("No reachable devices found".to_owned()),
            actions: Vec::new(),
        },
    )
}

/// How a device action is carried out.
pub enum DeviceCommand {
    /// Run `argv` directly.
    Run { argv: Vec<String> },
    /// Ask the host to run `argv` (it has the clipboard).
    RunViaHost { argv: Vec<String> },
    /// Not an action of this plugin.
    Nothing,
}

fn cli_argv(device_id: &str, flag: &str) -> (argv: Vec<String>)
    ensures
        argv@.map_values(|a: String| a@) == seq!["kdeconnect-cli"@, "--device"@, device_id@, flag@],
{
    let mut argv: Vec<String> = Vec::new();
    argv.push("kdeconnect-cli".to_owned());
    argv.push("--device".to_owned());
    argv.push(device_id.to_owned());
    argv.push(flag.to_owned());
    assert(argv@.map_values(|a: String| a@) =~= seq![
        "kdeconnect-cli"@,
        "--device"@,
        device_id@,
        flag@,
    ]);
    argv
}

/// The `kdeconnect-cli` command for `action_id` on `device_id`.
pub fn device_command(action_id: &str, device_id: &str) -> (r: DeviceCommand)
    ensures
        action_id@ == "ring"@ ==> (r matches DeviceCommand::Run { argv } && argv@.map_values(
            |a: String| a@,
        ) == seq!["kdeconnect-cli"@, "--device"@, device_id@, "--ring"@]),
        action_id@ == "ping"@ ==> (r matches DeviceCommand::Run { argv } && argv@.map_values(
            |a: String| a@,
        ) == seq!["kdeconnect-cli"@, "--device"@, device_id@, "--ping"@]),
        action_id@ == "clipboard"@ ==> (r matches DeviceCommand::RunViaHost { argv }
            && argv@.map_values(|a: String| a@) == seq![
            "kdeconnect-cli"@,
            "--device"@,
            device_id@,
            "--send-clipboard"@,
        ]),
        (action_id@ != "ring"@ && action_id@ != "ping"@ && action_id@ != "clipboard"@) ==> r is Nothing,
{
    proof {
        reveal_strlit("ring");
        reveal_strlit("ping");
        reveal_strlit("clipboard");
        assert("ring"@[0] != "ping"@[0]);
        assert("ring"@.len() != "clipboard"@.len());
        assert("ping"@.len() != "clipboard"@.len());
    }
    if str_eq(action_id, "ring") {
        DeviceCommand::Run { argv: cli_argv(device_id, "--ring") }
    } else if str_eq(action_id, "ping") {
        DeviceCommand::Run { argv: cli_argv(device_id, "--ping") }
    } else if str_eq(action_id, "clipboard") {
        DeviceCommand::RunViaHost { argv: cli_argv(device_id, "--send-clipboard") }
    } else {
        DeviceCommand::Nothing
    }
}

/// The plugin's root entry, with the devices' state.
pub fn kdeconnect_entry(summary: String) -> (r: ResultItem)
    ensures
        r.is_entry("open"@, "KDE Connect"@, Some(summary@), Some("kdeconnect"@), 5500),
{
    ResultItem {
        id: "open".to_owned(),
        title: "KDE Connect".to_owned(),
        subtitle: Some(summary),
        icon: Some("kdeconnect".to_owned()),
        score: 5500,
        command_id: "open".to_owned(),
        actions: Vec::new(),
    }
}

} // verus!
