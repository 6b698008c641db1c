//! Window switcher for KDE Plasma, activated with the `w` keyword: `w fire`
//! lists the open windows whose title matches; activating one focuses it.
//! The window list is fetched with `kdotool` and kept for 1.5 seconds, so
//! rapid keystrokes do not start a process per character.

use crate::proto::ResultItem;
use crate::rank::{find_after, find_from};
use crate::text::{chars_of, lowercase, string_of, to_lower, trim, trim_chars};
use vstd::prelude::*;

verus! {

/// How long a fetched window list stays valid, in milliseconds.
pub const CACHE_TTL_MS: u128 = 1500;

/// A window list fetched `elapsed_ms` milliseconds ago must be fetched again.
pub fn is_stale(elapsed_ms: u128) -> (r: bool)
    ensures
        r == (elapsed_ms >= CACHE_TTL_MS),
{
    elapsed_ms >= CACHE_TTL_MS
}

/// A window titled `title` matches `needle` (already trimmed and lowercased)
/// when the needle is empty or occurs in the lowercased title.
pub open spec fn window_matches(title: Seq<char>, needle: Seq<char>) -> bool {
    needle.len() == 0 || find_from(lowercase(title), needle, 0) is Some
}

/// The windows of `ws` that match the needle, in order.
pub open spec fn matching_windows(ws: Seq<(String, String)>, needle: Seq<char>) -> Seq<(String, String)>
    decreases ws.len(),
{
    if ws.len() == 0 {
        seq![]
    } else {
        let head = matching_windows(ws.drop_last(), needle);
        if window_matches(ws.last().1@, needle) {
            head.push(ws.last())
        } else {
            head
        }
    }
}

/// `item` is the entry that focuses window `w` (`(id, title)`).
pub open spec fn is_window_item(item: ResultItem, w: (String, String)) -> bool {
    &&& item.id == w.0
    &&& item.title == w.1
    &&& item.subtitle matches Some(s) && s@ == "Focus window"@
    &&& item.icon matches Some(i) && i@ == "preferences-system-windows"@
    &&& item.score == 5000
    &&& item.command_id == w.0
    &&& item.actions@.len() == 0
}

/// The entries for the open windows `windows` (`(id, title)` pairs) that
/// match `text`.
pub fn window_items(windows: &[(String, String)], text: &str) -> (r: Vec<ResultItem>)
    ensures
        r@.len() == matching_windows(windows@, lowercase(trim(text@))).len(),
        forall|k: int|
            0 <= k < r@.len() ==> is_window_item(
                #[trigger] r@[k],
                matching_windows(windows@, lowercase(trim(text@)))[k],
            ),
{
    let needle = chars_of(to_lower(string_of(&trim_chars(&chars_of(text))).as_str()).as_str());
    let ghost nd = lowercase(trim(text@));
    let mut out: Vec<ResultItem> = Vec::new();
    let mut i: usize = 0;
    while i < windows.len()
        invariant
            needle@ == nd,
            i <= windows@.len(),
            out@.len() == matching_windows(windows@.subrange(0, i as int), nd).len(),
            forall|k: int|
                0 <= k < out@.len() ==> is_window_item(
                    #[trigger] out@[k],
                    matching_windows(windows@.subrange(0, i as int), nd)[k],
                ),
        decreases windows@.len() - i,
    {
        assert(windows@.subrange(0, i + 1).drop_last() =~= windows@.subrange(0, i as int));
        let (id, title) = &windows[i];
        let keep = needle.len() == 0 || find_after(
            &chars_of(to_lower(title.as_str()).as_str()),
            &needle,
            0,
        ).is_some();
        if keep {
            out.push(
                ResultItem {
                    id: id.clone(),
                    title: title.clone(),
                    subtitle: Some("Focus window".to_owned()),
                    icon: Some("preferences-system-windows".to_owned()),
                    score: 5000,
                    command_id: id.clone(),
                    actions: Vec::new(),
                },
            );
        }
        i = i + 1;
    }
    assert(windows@.subrange(0, windows@.len() as int) =~= windows@);
    out
}

} // verus!
