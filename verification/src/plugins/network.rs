//! Network controls: Wi-Fi and Bluetooth toggles and the known Wi-Fi
//! networks, read from `nmcli -t -f IN-USE,SSID device wifi list`.

use crate::proto;
use crate::proto::{opt_text, Item, ListView, ResultItem};
use crate::rank::{occurs, occurs_in};
use crate::text::{
    cat, chars_of, chars_eq, lowercase, starts_with, starts_with_exec, str_eq, string_of,
    sub_chars, to_lower, trim, trim_chars,
};
use vstd::prelude::*;

verus! {

/// SSIDs are broadcast by anyone nearby and passed to `nmcli` as a
/// positional argument. `nmcli` has no `--` separator, so a name like
/// `--ask` would be taken as an option: such networks are not offered.
pub open spec fn safe_ssid(ssid: Seq<char>) -> bool {
    ssid.len() > 0 && ssid[0] != '-'
}

pub fn is_safe_ssid(ssid: &str) -> (r: bool)
    ensures
        r == safe_ssid(ssid@),
{
    let cs = chars_of(ssid);
    cs.len() > 0 && cs[0] != '-'
}

/// `s` with the terse-mode escapes of `nmcli -t` undone: a backslash takes
/// the next character literally (`\:` is `:`, `\\` is `\`); a final lone
/// backslash stays.
pub open spec fn unescaped(s: Seq<char>) -> Seq<char>
    decreases s.len(),
{
    if s.len() == 0 {
        seq![]
    } else if s[0] == '\\' && s.len() >= 2 {
        seq![s[1]] + unescaped(s.subrange(2, s.len() as int))
    } else {
        seq![s[0]] + unescaped(s.subrange(1, s.len() as int))
    }
}

/// Undo `nmcli -t` escaping (`\:` and `\\`) in a field value.
pub fn unescape_terse(field: &str) -> (r: String)
    ensures
        r@ == unescaped(field@),
{
    let cs = chars_of(field);
    let mut out: Vec<char> = Vec::new();
    let mut i: usize = 0;
    assert(cs@.subrange(0, cs@.len() as int) =~= cs@);
    while i < cs.len()
        invariant
            i <= cs@.len(),
            unescaped(cs@) == out@ + unescaped(cs@.subrange(i as int, cs@.len() as int)),
        decreases cs@.len() - i,
    {
        let ghost rest = cs@.subrange(i as int, cs@.len() as int);
        if cs[i] == '\\' && i + 1 < cs.len() {
            out.push(cs[i + 1]);
            assert(rest.subrange(2, rest.len() as int) =~= cs@.subrange(i + 2, cs@.len() as int));
            assert(out@ + unescaped(cs@.subrange(i + 2, cs@.len() as int)) =~= out@.drop_last() + (
            seq![rest[1]] + unescaped(rest.subrange(2, rest.len() as int))));
            i = i + 2;
        } else {
            out.push(cs[i]);
            assert(rest.subrange(1, rest.len() as int) =~= cs@.subrange(i + 1, cs@.len() as int));
            assert(out@ + unescaped(cs@.subrange(i + 1, cs@.len() as int)) =~= out@.drop_last() + (
            seq![rest[0]] + unescaped(rest.subrange(1, rest.len() as int))));
            i = i + 1;
        }
    }
    assert(cs@.subrange(0, cs@.len() as int) =~= cs@);
    string_of(&out)
}

/// Position of the first `:` in `s` at or after `i`.
pub open spec fn first_colon(s: Seq<char>, i: int) -> Option<int>
    decreases s.len() - i,
{
    if i < 0 || i >= s.len() {
        None
    } else if s[i] == ':' {
        Some(i)
    } else {
        first_colon(s, i + 1)
    }
}

/// What a list line `<in-use marker>:<ssid>` names: the SSID (trimmed, then
/// unescaped) and whether the marker is `*` (connected). Lines without a
/// colon, and empty or unsafe SSIDs, name nothing.
pub open spec fn wifi_of(line: Seq<char>) -> Option<(Seq<char>, bool)> {
    match first_colon(line, 0) {
        None => None,
        Some(i) => {
            let ssid = unescaped(trim(line.subrange(i + 1, line.len() as int)));
            if ssid.len() == 0 || !safe_ssid(ssid) {
                None
            } else {
                Some((ssid, trim(line.subrange(0, i)) == "*"@))
            }
        },
    }
}

/// Parse one line of the Wi-Fi list.
pub fn parse_wifi_line(line: &str) -> (r: Option<(String, bool)>)
    ensures
        match r {
            Some((ssid, in_use)) => wifi_of(line@) == Some((ssid@, in_use)),
            None => wifi_of(line@) is None,
        },
{
    let cs = chars_of(line);
    let mut i: usize = 0;
    while i < cs.len()
        invariant
            cs@ == line@,
            i <= cs@.len(),
            first_colon(cs@, 0) == first_colon(cs@, i as int),
        decreases cs@.len() - i,
    {
        if cs[i] == ':' {
            let raw = string_of(&trim_chars(&sub_chars(&cs, i + 1, cs.len())));
            let ssid = unescape_terse(raw.as_str());
            if ssid.as_str().is_empty() || !is_safe_ssid(ssid.as_str()) {
                return None;
            }
            let marker = trim_chars(&sub_chars(&cs, 0, i));
            let in_use = chars_eq(&marker, &chars_of("*"));
            return Some((ssid, in_use));
        }
        i = i + 1;
    }
    None
}

/// Whether some network of `nets` has the SSID `ssid`.
pub open spec fn has_ssid(nets: Seq<(Seq<char>, bool)>, ssid: Seq<char>) -> bool {
    exists|k: int| 0 <= k < nets.len() && (#[trigger] nets[k]).0 == ssid
}

/// The networks named by `lines`, in line order, each SSID once: the first
/// line that names an SSID decides whether it is in use.
pub open spec fn wifi_list(lines: Seq<String>) -> Seq<(Seq<char>, bool)>
    decreases lines.len(),
{
    if lines.len() == 0 {
        seq![]
    } else {
        let prev = wifi_list(lines.drop_last());
        match wifi_of(lines.last()@) {
            Some(e) => if has_ssid(prev, e.0) {
                prev
            } else {
                prev.push(e)
            },
            None => prev,
        }
    }
}

/// The networks of a result, by their SSIDs' text.
pub open spec fn net_views(out: Seq<(String, bool)>) -> Seq<(Seq<char>, bool)> {
    out.map_values(|e: (String, bool)| (e.0@, e.1))
}

/// The known Wi-Fi networks of the list `lines`, in line order, each SSID
/// once (its first line wins).
pub fn wifi_networks(lines: &[String]) -> (r: Vec<(String, bool)>)
    ensures
        net_views(r@) == wifi_list(lines@),
{
    let mut out: Vec<(String, bool)> = Vec::new();
    let mut i: usize = 0;
    while i < lines.len()
        invariant
            i <= lines@.len(),
            net_views(out@) == wifi_list(lines@.subrange(0, i as int)),
        decreases lines@.len() - i,
    {
        proof {
            assert(lines@.subrange(0, i + 1).drop_last() =~= lines@.subrange(0, i as int));
            assert(lines@.subrange(0, i + 1).last() == lines@[i as int]);
        }
        match parse_wifi_line(lines[i].as_str()) {
            Some((ssid, in_use)) => {
                let mut seen = false;
                let mut k: usize = 0;
                while k < out.len()
                    invariant
                        k <= out@.len(),
                        seen == exists|m: int| 0 <= m < k && (#[trigger] out@[m]).0@ == ssid@,
                    decreases out@.len() - k,
                {
                    if str_eq(out[k].0.as_str(), ssid.as_str()) {
                        seen = true;
                    }
                    k = k + 1;
                }
                proof {
                    let nv = net_views(out@);
                    if seen {
                        let m = choose|m: int| 0 <= m < out@.len() && (#[trigger] out@[m]).0@ == ssid@;
                        assert(nv[m].0 == ssid@);
                    } else {
                        assert forall|m: int| 0 <= m < nv.len() implies (#[trigger] nv[m]).0 != ssid@ by {
                            assert(nv[m].0 == out@[m].0@);
                        }
                    }
                    assert(seen == has_ssid(nv, ssid@));
                }
                if !seen {
                    let ghost before = out@;
                    out.push((ssid, in_use));
                    proof {
                        assert(net_views(out@) =~= net_views(before).push((ssid@, in_use)));
                    }
                }
            },
            None => {},
        }
        i = i + 1;
    }
    proof {
        assert(lines@.subrange(0, lines@.len() as int) =~= lines@);
    }
    out
}

/// `On` or `Off`.
pub open spec fn on_off(on: bool) -> Seq<char> {
    if on {
        "On"@
    } else {
        "Off"@
    }
}

fn on_off_text(on: bool) -> (r: &'static str)
    ensures
        r@ == on_off(on),
{
    if on {
        "On"
    } else {
        "Off"
    }
}

/// The one-line state shown under the plugin's root entry.
pub fn status_summary(wifi_on: bool, bluetooth_on: bool) -> (r: String)
    ensures
        r@ == "Wi-Fi: "@ + on_off(wifi_on) + "  •  Bluetooth: "@ + on_off(bluetooth_on),
{
    cat(
        cat(cat("Wi-Fi: ", on_off_text(wifi_on)).as_str(), "  •  Bluetooth: ").as_str(),
        on_off_text(bluetooth_on),
    )
}

/// What `nmcli` and `rfkill` report: the radios, and the known networks
/// (`(ssid, in use)`, read only while Wi-Fi is on).
pub struct NetworkState {
    pub wifi_on: bool,
    pub bluetooth_on: bool,
    pub networks: Vec<(String, bool)>,
}

/// The Wi-Fi toggle is offered for the lowercased filter `needle`.
pub open spec fn wifi_offered(needle: Seq<char>) -> bool {
    occurs_in("wifi wi-fi wireless"@, needle)
}

/// The Bluetooth toggle is offered for `needle`.
pub open spec fn bluetooth_offered(needle: Seq<char>) -> bool {
    occurs_in("bluetooth"@, needle)
}

/// The known networks listed for `needle`: none while Wi-Fi is off, else
/// those whose lowercased name holds the needle, in order.
pub open spec fn listed_networks(state: NetworkState, needle: Seq<char>) -> Seq<(String, bool)> {
    if state.wifi_on {
        state.networks@.filter(|n: (String, bool)| occurs_in(lowercase(n.0@), needle))
    } else {
        seq![]
    }
}

/// The entry that toggles Wi-Fi in state `on`.
pub open spec fn is_wifi_toggle(item: Item, on: bool) -> bool {
    &&& item.shows(
        "toggle-wifi"@,
        if on {
            "Wi-Fi: On — click to turn off"@
        } else {
            "Wi-Fi: Off — click to turn on"@
        },
        None,
        Some(
            if on {
                "network-wireless"@
            } else {
                "network-wireless-disconnected"@
            },
        ),
    )
    &&& item.is_bare()
}

/// The entry that toggles Bluetooth in state `on`.
pub open spec fn is_bluetooth_toggle(item: Item, on: bool) -> bool {
    &&& item.shows(
        "toggle-bt"@,
        if on {
            "Bluetooth: On — click to turn off"@
        } else {
            "Bluetooth: Off — click to turn on"@
        },
        None,
        Some(
            if on {
                "bluetooth-active"@
            } else {
                "bluetooth-disabled"@
            },
        ),
    )
    &&& item.is_bare()
}

/// The entry that connects to the known network `n`; the one in use is
/// ticked.
pub open spec fn is_network_item(item: Item, n: (String, bool)) -> bool {
    &&& item.shows(
        "connect:"@ + n.0@,
        n.0@,
        Some(
            if n.1 {
                "Connected"@
            } else {
                "Known network — click to connect"@
            },
        ),
        Some("network-wireless"@),
    )
    &&& item.accessories@.len() == (if n.1 {
        1int
    } else {
        0int
    })
    &&& n.1 ==> item.accessories@[0]@ == "✓"@
    &&& item.actions@.len() == 0
}

fn network_item(n: &(String, bool)) -> (r: Item)
    ensures
        is_network_item(r, *n),
{
    let mut accessories: Vec<String> = Vec::new();
    if n.1 {
        accessories.push("✓".to_owned());
    }
    Item {
        id: cat("connect:", n.0.as_str()),
        title: n.0.clone(),
        subtitle: Some(
            if n.1 {
                "Connected"
            } else {
                "Known network — click to connect"
            }.to_owned(),
        ),
        icon: Some("network-wireless".to_owned()),
        accessories,
        actions: Vec::new(),
    }
}

/// The plugin's view for `filter`. Without `nmcli` (`state` is `None`) it
/// only says which package is missing; otherwise it offers the toggles the
/// filter matches, then the matching known networks.
pub fn network_view(filter: &str, state: &Option<NetworkState>) -> (r: proto::View)
    ensures
        state is None ==> {
            &&& r.is_list(Some("Network"@), None, None)
            &&& r.list_items().len() == 1
            &&& r.list_items()[0].shows(
                "missing"@,
                "nmcli not found"@,
                Some("Install the 'networkmanager' package for Wi-Fi control"@),
                Some("dialog-warning"@),
            )
            &&& r.list_items()[0].is_bare()
        },
        state matches Some(st) ==> {
            let needle = lowercase(filter@);
            let w: int = if wifi_offered(needle) {
                1
            } else {
                0
            };
            let b: int = if bluetooth_offered(needle) {
                1
            } else {
                0
            };
            let nets = listed_networks(*st, needle);
            &&& r.is_list(Some("Network"@), Some("Filter…"@), Some("No matches"@))
            &&& r.list_items().len() == w + b + nets.len()
            &&& wifi_offered(needle) ==> is_wifi_toggle(r.list_items()[0], st.wifi_on)
            &&& bluetooth_offered(needle) ==> is_bluetooth_toggle(
                r.list_items()[w],
                st.bluetooth_on,
            )
            &&& forall|k: int|
                0 <= k < nets.len() ==> is_network_item(#[trigger] r.list_items()[w + b + k], nets[k])
        },
{
    let st = match state {
        None => {
            let mut items: Vec<Item> = Vec::new();
            items.push(
                Item::bare(
                    "missing",
                    "nmcli not found",
                    Some("Install the 'networkmanager' package for Wi-Fi control"),
                    "dialog-warning",
                ),
            );
            return proto::View::List(
                ListView {
                    title: Some("Network".to_owned()),
                    placeholder: None,
                    items,
                    empty_text: None,
                    actions: Vec::new(),
                },
            );
        },
        Some(st) => st,
    };
    let needle = chars_of(to_lower(filter).as_str());
    let ghost nd = lowercase(filter@);
    let mut items: Vec<Item> = Vec::new();
    if occurs(&chars_of("wifi wi-fi wireless"), &needle) {
        items.push(
            Item::bare(
                "toggle-wifi",
                if st.wifi_on {
                    "Wi-Fi: On — click to turn off"
                } else {
                    "Wi-Fi: Off — click to turn on"
                },
                None,
                if st.wifi_on {
                    "network-wireless"
                } else {
                    "network-wireless-disconnected"
                },
            ),
        );
    }
    if occurs(&chars_of("bluetooth"), &needle) {
        items.push(
            Item::bare(
                "toggle-bt",
                if st.bluetooth_on {
                    "Bluetooth: On — click to turn off"
                } else {
                    "Bluetooth: Off — click to turn on"
                },
                None,
                if st.bluetooth_on {
                    "bluetooth-active"
                } else {
                    "bluetooth-disabled"
                },
            ),
        );
    }
    let t = items.len();
    let ghost toggles = items@;
    let ghost w: int = if wifi_offered(nd) { 1 } else { 0 };
    let ghost b: int = if bluetooth_offered(nd) { 1 } else { 0 };
    assert(toggles.len() == w + b);
    assert(wifi_offered(nd) ==> is_wifi_toggle(toggles[0], st.wifi_on));
    assert(bluetooth_offered(nd) ==> is_bluetooth_toggle(toggles[w], st.bluetooth_on));
    if st.wifi_on {
        let nets = &st.networks;
        let ghost pred = |n: (String, bool)| occurs_in(lowercase(n.0@), nd);
        let mut i: usize = 0;
        while i < nets.len()
            invariant
                needle@ == nd,
                pred == (|n: (String, bool)| occurs_in(lowercase(n.0@), nd)),
                i <= nets@.len(),
                t == toggles.len(),
                items@.len() == t + nets@.subrange(0, i as int).filter(pred).len(),
                forall|k: int| 0 <= k < t ==> items@[k] == toggles[k],
                forall|k: int|
                    0 <= k < nets@.subrange(0, i as int).filter(pred).len() ==> is_network_item(
                        #[trigger] items@[t + k],
                        nets@.subrange(0, i as int).filter(pred)[k],
                    ),
            decreases nets@.len() - i,
        {
            proof {
                reveal(Seq::filter);
            }
            assert(nets@.subrange(0, i + 1).drop_last() =~= nets@.subrange(0, i as int));
            let n = &nets[i];
            if occurs(&chars_of(to_lower(n.0.as_str()).as_str()), &needle) {
                items.push(network_item(n));
            }
            i = i + 1;
        }
        assert(nets@.subrange(0, nets@.len() as int) =~= nets@);
    }
    proof {
        reveal_strlit("wifi wi-fi wireless");
        reveal_strlit("bluetooth");
    }
    proto::View::List(
        ListView {
            title: Some("Network".to_owned()),
            placeholder: Some("Filter…".to_owned()),
            items,
            empty_text: Some("No matches".to_owned()),
            actions: Vec::new(),
        },
    )
}

/// What an action in the network view asks for.
pub enum NetworkCommand {
    Nothing,
    ToggleWifi,
    ToggleBluetooth,
    /// Connect to the known network `ssid`.
    Connect { ssid: String },
}

/// The command for an action: its target is the item when there is one,
/// else the action; `connect:<ssid>` is refused for an unsafe SSID.
pub fn network_command(action_id: &str, item_id: Option<&str>) -> (r: NetworkCommand)
    ensures
        ({
            let target = match item_id {
                Some(i) => i@,
                None => action_id@,
            };
            &&& target == "toggle-wifi"@ ==> r is ToggleWifi
            &&& target == "toggle-bt"@ ==> r is ToggleBluetooth
            &&& (target != "toggle-wifi"@ && target != "toggle-bt"@ && starts_with(target, "connect:"@)
                && safe_ssid(target.subrange(8, target.len() as int))) ==> (r matches NetworkCommand::Connect { ssid } && ssid@ == target.subrange(8, target.len() as int))
            &&& (target != "toggle-wifi"@ && target != "toggle-bt"@ && !(starts_with(target, "connect:"@)
                && safe_ssid(target.subrange(8, target.len() as int)))) ==> r is Nothing
        }),
{
    let target = match item_id {
        Some(i) => i,
        None => action_id,
    };
    proof {
        reveal_strlit("toggle-wifi");
        reveal_strlit("toggle-bt");
        reveal_strlit("connect:");
    }
    if str_eq(target, "toggle-wifi") {
        return NetworkCommand::ToggleWifi;
    }
    if str_eq(target, "toggle-bt") {
        return NetworkCommand::ToggleBluetooth;
    }
    let t = chars_of(target);
    let prefix = chars_of("connect:");
    proof {
        reveal_strlit("connect:");
    }
    if starts_with_exec(&t, &prefix) {
        let ssid = string_of(&sub_chars(&t, 8, t.len()));
        if is_safe_ssid(ssid.as_str()) {
            return NetworkCommand::Connect { ssid };
        }
    }
    NetworkCommand::Nothing
}

/// The plugin's root entry, with the radios' state.
pub fn network_entry(summary: String) -> (r: ResultItem)
    ensures
        r.is_entry("open"@, "Network"@, Some(summary@), Some("network-wireless"@), 5000),
{
    ResultItem {
        id: "open".to_owned(),
        title: "Network".to_owned(),
        subtitle: Some(summary),
        icon: Some("network-wireless".to_owned()),
        score: 5000,
        command_id: "open".to_owned(),
        actions: Vec::new(),
    }
}

/// Wi-Fi is on when `nmcli -t -f WIFI radio` answers `enabled`.
pub fn wifi_radio_on(output: &str) -> (r: bool)
    ensures
        r == (trim(output@) == "enabled"@),
{
    let t = trim_chars(&chars_of(output));
    chars_eq(&t, &chars_of("enabled"))
}

/// Bluetooth is on when `rfkill list bluetooth` reports it not soft-blocked.
pub fn bluetooth_unblocked(output: &str) -> (r: bool)
    ensures
        r == occurs_in(output@, "Soft blocked: no"@),
{
    occurs(&chars_of(output), &chars_of("Soft blocked: no"))
}

} // verus!
