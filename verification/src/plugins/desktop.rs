//! Desktop toggles (night colour, do-not-disturb): reading the answers of
//! `busctl`.

use crate::num::{all_digits, digits_val, lemma_digits_val_nonneg_prefix};
use crate::proto;
use crate::proto::{Item, ListView, ResultItem};
use crate::text::{cat, chars_of, starts_with, starts_with_exec, str_eq, sub_chars, trim, trim_chars};
use vstd::prelude::*;

verus! {

/// The value `u32::from_str` reads from `t`: an optional `+`, then at least
/// one ASCII digit and nothing else, at most `u32::MAX`.
pub open spec fn u32_value(t: Seq<char>) -> Option<u32> {
    let d = if t.len() > 0 && t[0] == '+' {
        t.subrange(1, t.len() as int)
    } else {
        t
    };
    if d.len() > 0 && all_digits(d) && digits_val(d) <= u32::MAX {
        Some(digits_val(d) as u32)
    } else {
        None
    }
}

/// Parse a decimal `u32` the way `str::parse::<u32>` does.
pub fn parse_u32(t: &[char]) -> (r: Option<u32>)
    ensures
        r == u32_value(t@),
{
    let start: usize = if t.len() > 0 && t[0] == '+' {
        1
    } else {
        0
    };
    let d = sub_chars(t, start, t.len());
    assert(d@ == (if t@.len() > 0 && t@[0] == '+' {
        t@.subrange(1, t@.len() as int)
    } else {
        t@
    })) by {
        if start == 0 {
            assert(t@.subrange(0, t@.len() as int) =~= t@);
        }
    }
    if d.len() == 0 {
        return None;
    }
    assert(d@.subrange(0, 0) =~= Seq::<char>::empty());
    let mut acc: u64 = 0;
    let mut i: usize = 0;
    while i < d.len()
        invariant
            d@.len() > 0,
            u32_value(t@) == (if all_digits(d@) && digits_val(d@) <= u32::MAX {
                Some(digits_val(d@) as u32)
            } else {
                None
            }),
            i <= d@.len(),
            all_digits(d@.subrange(0, i as int)),
            acc == digits_val(d@.subrange(0, i as int)),
            acc <= u32::MAX,
        decreases d@.len() - i,
    {
        let c = d[i];
        assert(d@.subrange(0, i + 1).drop_last() =~= d@.subrange(0, i as int));
        if c < '0' || c > '9' {
            assert(!all_digits(d@));
            return None;
        }
        let v = (c as u32 - 48) as u64;
        acc = acc * 10 + v;
        assert(acc == digits_val(d@.subrange(0, i + 1)));
        assert(all_digits(d@.subrange(0, i + 1)));
        if acc > 0xFFFF_FFFF {
            proof {
                if all_digits(d@) {
                    lemma_digits_val_nonneg_prefix(d@, i + 1);
                }
            }
            return None;
        }
        i = i + 1;
    }
    assert(d@.subrange(0, d@.len() as int) =~= d@);
    Some(acc as u32)
}

/// The value `usize::from_str` reads from `t`: an optional `+`, then at least
/// one ASCII digit and nothing else, at most `usize::MAX`.
pub open spec fn usize_value(t: Seq<char>) -> Option<usize> {
    let d = if t.len() > 0 && t[0] == '+' {
        t.subrange(1, t.len() as int)
    } else {
        t
    };
    if d.len() > 0 && all_digits(d) && digits_val(d) <= usize::MAX {
        Some(digits_val(d) as usize)
    } else {
        None
    }
}

/// Parse a decimal `usize` the way `str::parse::<usize>` does.
pub fn parse_usize(t: &[char]) -> (r: Option<usize>)
    ensures
        r == usize_value(t@),
{
    let start: usize = if t.len() > 0 && t[0] == '+' {
        1
    } else {
        0
    };
    let d = sub_chars(t, start, t.len());
    assert(d@ == (if t@.len() > 0 && t@[0] == '+' {
        t@.subrange(1, t@.len() as int)
    } else {
        t@
    })) by {
        if start == 0 {
            assert(t@.subrange(0, t@.len() as int) =~= t@);
        }
    }
    if d.len() == 0 {
        return None;
    }
    assert(d@.subrange(0, 0) =~= Seq::<char>::empty());
    let mut acc: u128 = 0;
    let mut i: usize = 0;
    while i < d.len()
        invariant
            d@.len() > 0,
            usize_value(t@) == (if all_digits(d@) && digits_val(d@) <= usize::MAX {
                Some(digits_val(d@) as usize)
            } else {
                None
            }),
            i <= d@.len(),
            all_digits(d@.subrange(0, i as int)),
            acc == digits_val(d@.subrange(0, i as int)),
            acc <= usize::MAX,
        decreases d@.len() - i,
    {
        let c = d[i];
        assert(d@.subrange(0, i + 1).drop_last() =~= d@.subrange(0, i as int));
        if c < '0' || c > '9' {
            assert(!all_digits(d@));
            return None;
        }
        let v = (c as u32 - 48) as u128;
        acc = acc * 10 + v;
        assert(acc == digits_val(d@.subrange(0, i + 1)));
        assert(all_digits(d@.subrange(0, i + 1)));
        if acc > usize::MAX as u128 {
            proof {
                if all_digits(d@) {
                    lemma_digits_val_nonneg_prefix(d@, i + 1);
                }
            }
            return None;
        }
        i = i + 1;
    }
    assert(d@.subrange(0, d@.len() as int) =~= d@);
    Some(acc as usize)
}

/// The value a `busctl` answer of the form `u <value>` carries: the
/// trimmed text after `u `, read as a `u32`.
pub open spec fn uint_result(s: Seq<char>) -> Option<u32> {
    let t = trim(s);
    if starts_with(t, "u "@) {
        u32_value(trim(t.subrange(2, t.len() as int)))
    } else {
        None
    }
}

/// Parse a `busctl` uint result line of the form `"u <value>\n"`.
pub fn parse_uint_result(s: &str) -> (r: Option<u32>)
    ensures
        r == uint_result(s@),
{
    let t = trim_chars(&chars_of(s));
    proof {
        reveal_strlit("u ");
    }
    if !starts_with_exec(&t, &chars_of("u ")) {
        return None;
    }
    let token = trim_chars(&sub_chars(&t, 2, t.len()));
    parse_u32(&token)
}

/// The cookie stored for an inhibitor: the trimmed file content, read as a
/// `u32`.
pub fn stored_cookie(content: &str) -> (r: Option<u32>)
    ensures
        r == u32_value(trim(content@)),
{
    parse_u32(&trim_chars(&chars_of(content)))
}

/// The one-line state under the plugin's root entry: night colour is off
/// while it is inhibited.
pub fn status_summary(night_color_inhibited: bool, dnd_on: bool) -> (r: String)
    ensures
        r@ == (if night_color_inhibited {
            "Night Color: Off"@
        } else {
            "Night Color: On"@
        }) + "  •  "@ + (if dnd_on {
            "DND: On"@
        } else {
            "DND: Off"@
        }),
{
    let nc = if night_color_inhibited {
        "Night Color: Off"
    } else {
        "Night Color: On"
    };
    let dnd = if dnd_on {
        "DND: On"
    } else {
        "DND: Off"
    };
    cat(cat(nc, "  •  ").as_str(), dnd)
}

/// The two toggles, each showing its current state.
pub fn toggles_view(night_color_inhibited: bool, dnd_on: bool) -> (r: proto::View)
    ensures
        r.is_list(Some("Desktop Toggles"@), None, None),
        r.list_items().len() == 2,
        r.list_items()[0].shows(
            "toggle-nightcolor"@,
            if night_color_inhibited {
                "Night Color: Off — click to re-enable"@
            } else {
                "Night Color: On — click to disable"@
            },
            Some("org.kde.KWin.NightLight  (KWin night light filter)"@),
            Some(
                if night_color_inhibited {
                    "weather-clear"@
                } else {
                    "night-light"@
                },
            ),
        ),
        r.list_items()[0].is_bare(),
        r.list_items()[1].shows(
            "toggle-dnd"@,
            if dnd_on {
                "Do Not Disturb: On — click to disable"@
            } else {
                "Do Not Disturb: Off — click to enable"@
            },
            Some("org.freedesktop.Notifications  (suppress system notifications)"@),
            Some(
                if dnd_on {
                    "notifications-disabled"@
                } else {
                    "preferences-desktop-notification"@
                },
            ),
        ),
        r.list_items()[1].is_bare(),
{
    let mut items: Vec<Item> = Vec::new();
    items.push(
        Item::bare(
            "toggle-nightcolor",
            if night_color_inhibited {
                "Night Color: Off — click to re-enable"
            } else {
                "Night Color: On — click to disable"
            },
            Some("org.kde.KWin.NightLight  (KWin night light filter)"),
            if night_color_inhibited {
                "weather-clear"
            } else {
                "night-light"
            },
        ),
    );
    items.push(
        Item::bare(
            "toggle-dnd",
            if dnd_on {
                "Do Not Disturb: On — click to disable"
            } else {
                "Do Not Disturb: Off — click to enable"
            },
            Some("org.freedesktop.Notifications  (suppress system notifications)"),
            if dnd_on {
                "notifications-disabled"
            } else {
                "preferences-desktop-notification"
            },
        ),
    );
    proto::View::List(
        ListView {
            title: Some("Desktop Toggles".to_owned()),
            placeholder: None,
            items,
            empty_text: None,
            actions: Vec::new(),
        },
    )
}

/// Which toggle an action flips.
pub enum DesktopToggle {
    NightColor,
    DoNotDisturb,
    Nothing,
}

/// The toggle for an action: its target is the item when there is one, else
/// the action.
pub fn toggle_target(action_id: &str, item_id: Option<&str>) -> (r: DesktopToggle)
    ensures
        ({
            let target = match item_id {
                Some(i) => i@,
                None => action_id@,
            };
            &&& target == "toggle-nightcolor"@ ==> r is NightColor
            &&& target == "toggle-dnd"@ ==> r is DoNotDisturb
            &&& (target != "toggle-nightcolor"@ && target != "toggle-dnd"@) ==> r is Nothing
        }),
{
    let target = match item_id {
        Some(i) => i,
        None => action_id,
    };
    proof {
        reveal_strlit("toggle-nightcolor");
        reveal_strlit("toggle-dnd");
        assert("toggle-nightcolor"@.len() != "toggle-dnd"@.len());
    }
    if str_eq(target, "toggle-nightcolor") {
        DesktopToggle::NightColor
    } else if str_eq(target, "toggle-dnd") {
        DesktopToggle::DoNotDisturb
    } else {
        DesktopToggle::Nothing
    }
}

/// The plugin's root entry, with the toggles' state.
pub fn desktop_entry(summary: String) -> (r: ResultItem)
    ensures
        r.is_entry("open"@, "Desktop Toggles"@, Some(summary@), Some("preferences-desktop"@), 5200),
{
    ResultItem {
        id: "open".to_owned(),
        title: "Desktop Toggles".to_owned(),
        subtitle: Some(summary),
        icon: Some("preferences-desktop".to_owned()),
        score: 5200,
        command_id: "open".to_owned(),
        actions: Vec::new(),
    }
}

} // verus!
