//! Clipboard history, activated with the `c` keyword. The history is a list
//! of texts, newest first, kept through the host's storage; the current
//! clipboard is taken in whenever the plugin is queried, and entries can be
//! copied back or deleted.

use crate::num::{nat_digits, push_digits};
use crate::plugins::desktop::{u32_value, parse_u32};
use crate::proto;
use crate::proto::{opt_text, Action, ActionKind, Item, ListView, ResultItem};
use crate::rank::{occurs, occurs_in};
use crate::text::{cat, chars_of, lowercase, string_of, sub_chars, to_lower, trim, trim_chars};
use vstd::prelude::*;

verus! {

/// The storage key the history is kept under.
pub const HISTORY_KEY: &'static str = "history";

/// How many entries the history keeps.
pub const MAX_ENTRIES: usize = 50;

/// The texts of a list of strings.
pub open spec fn texts(v: Seq<String>) -> Seq<Seq<char>> {
    v.map_values(|e: String| e@)
}

/// The entries kept behind a new text: all but its older copies.
pub open spec fn other_than(current: Seq<char>) -> spec_fn(Seq<char>) -> bool {
    |e: Seq<char>| e != current
}

/// The history after taking in the clipboard text `current`, or `None` when
/// it stays as it is: a blank text, or the newest entry again. Otherwise the
/// text moves to the front (an older copy of it is dropped) and the oldest
/// entries beyond the limit go.
pub open spec fn captured(history: Seq<Seq<char>>, current: Seq<char>) -> Option<Seq<Seq<char>>> {
    if trim(current).len() == 0 || (history.len() > 0 && history[0] == current) {
        None
    } else {
        let h = seq![current] + history.filter(other_than(current));
        Some(
            if h.len() > MAX_ENTRIES {
                h.subrange(0, MAX_ENTRIES as int)
            } else {
                h
            },
        )
    }
}

fn same_text(a: &str, b: &str) -> (r: bool)
    ensures
        r == (a@ == b@),
{
    crate::text::str_eq(a, b)
}

/// Take the clipboard text `current` into `history`; `None` when the
/// history does not change.
pub fn capture(history: &Vec<String>, current: &str) -> (r: Option<Vec<String>>)
    ensures
        match r {
            Some(h) => captured(texts(history@), current@) == Some(texts(h@)),
            None => captured(texts(history@), current@) is None,
        },
{
    if trim_chars(&chars_of(current)).len() == 0 {
        return None;
    }
    if history.len() > 0 && same_text(history[0].as_str(), current) {
        return None;
    }
    let ghost pred = other_than(current@);
    let mut out: Vec<String> = Vec::new();
    out.push(current.to_owned());
    let mut i: usize = 0;
    while i < history.len()
        invariant
            pred == other_than(current@),
            i <= history@.len(),
            texts(out@) == seq![current@] + texts(history@.subrange(0, i as int)).filter(pred),
        decreases history@.len() - i,
    {
        proof {
            reveal(Seq::filter);
        }
        let ghost before = texts(history@.subrange(0, i as int));
        assert(texts(history@.subrange(0, i + 1)) =~= before.push(history@[i as int]@));
        assert(before.push(history@[i as int]@).drop_last() =~= before);
        if !same_text(history[i].as_str(), current) {
            let ghost old_out = texts(out@);
            out.push(history[i].clone());
            assert(texts(out@) =~= old_out.push(history@[i as int]@));
        }
        i = i + 1;
    }
    assert(history@.subrange(0, history@.len() as int) =~= history@);
    if out.len() > MAX_ENTRIES {
        out.truncate(MAX_ENTRIES);
        assert(texts(out@) =~= (seq![current@] + texts(history@).filter(pred)).subrange(
            0,
            MAX_ENTRIES as int,
        ));
    }
    Some(out)
}

/// Where the first line of `s` ends, looking from `i`: the first `'\n'` at
/// or after `i`, or the end.
pub open spec fn line_end(s: Seq<char>, i: int) -> int
    decreases s.len() - i,
{
    if i < 0 || i >= s.len() {
        s.len() as int
    } else if s[i] == '\n' {
        i
    } else {
        line_end(s, i + 1)
    }
}

/// The one-line preview of an entry: its first line, trimmed, cut to 80
/// characters with an ellipsis.
pub open spec fn preview_of(entry: Seq<char>) -> Seq<char> {
    let line = trim(entry.subrange(0, line_end(entry, 0)));
    if line.len() > 80 {
        line.subrange(0, 80) + "…"@
    } else {
        line
    }
}

/// Single-line preview of a (possibly multi-line) entry.
pub fn preview(entry: &str) -> (r: String)
    ensures
        r@ == preview_of(entry@),
{
    let cs = chars_of(entry);
    let mut e: usize = 0;
    while e < cs.len() && cs[e] != '\n'
        invariant
            e <= cs@.len(),
            line_end(cs@, 0) == line_end(cs@, e as int),
        decreases cs@.len() - e,
    {
        e = e + 1;
    }
    let line = trim_chars(&sub_chars(&cs, 0, e));
    if line.len() > 80 {
        cat(string_of(&sub_chars(&line, 0, 80)).as_str(), "…")
    } else {
        string_of(&line)
    }
}

/// The positions of the entries listed for the lowercased filter `needle`:
/// those whose lowercased text holds it, in order.
pub open spec fn listed_entries(history: Seq<String>, needle: Seq<char>) -> Seq<int> {
    Seq::new(history.len(), |i: int| i).filter(
        |i: int| occurs_in(lowercase(history[i]@), needle),
    )
}

/// `item` is the list entry of `entry` at position `index`: its preview,
/// with a copy action carrying the whole text and a delete action.
pub open spec fn is_entry_item(item: Item, index: int, entry: Seq<char>) -> bool {
    &&& item.shows(nat_digits(index as nat), preview_of(entry), None, Some("edit-paste"@))
    &&& item.accessories@.len() == 0
    &&& item.actions@.len() == 2
    &&& item.actions@[0].id@ == "copy"@
    &&& item.actions@[0].title@ == "Copy"@
    &&& item.actions@[0].icon is None
    &&& item.actions@[0].shortcut is None
    &&& item.actions@[0].kind matches ActionKind::Copy { text } && text@ == entry
    &&& item.actions@[1].id@ == "delete"@
    &&& item.actions@[1].title@ == "Delete"@
    &&& item.actions@[1].icon is None
    &&& item.actions@[1].shortcut is None
    &&& item.actions@[1].kind is Plugin
}

fn entry_item(index: usize, entry: &String) -> (r: Item)
    ensures
        is_entry_item(r, index as int, entry@),
{
    let mut id: Vec<char> = Vec::new();
    push_digits(index as u128, &mut id);
    let mut actions: Vec<Action> = Vec::new();
    actions.push(
        Action {
            id: "copy".to_owned(),
            title: "Copy".to_owned(),
            icon: None,
            shortcut: None,
            kind: ActionKind::Copy { text: entry.clone() },
        },
    );
    actions.push(
        Action {
            id: "delete".to_owned(),
            title: "Delete".to_owned(),
            icon: None,
            shortcut: None,
            kind: ActionKind::Plugin,
        },
    );
    Item {
        id: string_of(&id),
        title: preview(entry.as_str()),
        subtitle: None,
        icon: Some("edit-paste".to_owned()),
        accessories: Vec::new(),
        actions,
    }
}

/// The history view for `filter`.
pub fn list_view(history: &Vec<String>, filter: &str) -> (r: proto::View)
    ensures
        r.is_list(
            Some("Clipboard history"@),
            Some("Filter clipboard history"@),
            Some("No clipboard history yet"@),
        ),
        r.list_items().len() == listed_entries(history@, lowercase(filter@)).len(),
        forall|k: int|
            0 <= k < r.list_items().len() ==> {
                let i = #[trigger] listed_entries(history@, lowercase(filter@))[k];
                is_entry_item(r.list_items()[k], i, history@[i]@)
            },
{
    let needle = chars_of(to_lower(filter).as_str());
    let ghost nd = lowercase(filter@);
    let ghost pred = |i: int| occurs_in(lowercase(history@[i]@), nd);
    let ghost ids = |i: int| i;
    let mut items: Vec<Item> = Vec::new();
    let mut i: usize = 0;
    while i < history.len()
        invariant
            needle@ == nd,
            pred == (|i: int| occurs_in(lowercase(history@[i]@), nd)),
            ids == (|i: int| i),
            i <= history@.len(),
            items@.len() == Seq::new(i as nat, ids).filter(pred).len(),
            forall|k: int|
                0 <= k < items@.len() ==> {
                    let j = #[trigger] Seq::new(i as nat, ids).filter(pred)[k];
                    &&& 0 <= j < i
                    &&& is_entry_item(items@[k], j, history@[j]@)
                },
        decreases history@.len() - i,
    {
        proof {
            reveal(Seq::filter);
            assert(Seq::new((i + 1) as nat, ids).drop_last() =~= Seq::new(i as nat, ids));
        }
        if occurs(&chars_of(to_lower(history[i].as_str()).as_str()), &needle) {
            items.push(entry_item(i, &history[i]));
        }
        i = i + 1;
    }
    assert(Seq::new(history@.len(), ids) =~= Seq::new(history@.len(), |i: int| i));
    proto::View::List(
        ListView {
            title: Some("Clipboard history".to_owned()),
            placeholder: Some("Filter clipboard history".to_owned()),
            items,
            empty_text: Some("No clipboard history yet".to_owned()),
            actions: Vec::new(),
        },
    )
}

/// The history without the entry whose position `index` names (as the
/// list's item ids write it), or `None` when it names no entry.
pub fn delete_entry(history: &Vec<String>, index: &str) -> (r: Option<Vec<String>>)
    ensures
        match crate::plugins::desktop::usize_value(index@) {
            Some(i) if i < history@.len() => r matches Some(h) && h@ == history@.remove(i as int),
            _ => r is None,
        },
{
    match crate::plugins::desktop::parse_usize(&chars_of(index)) {
        Some(i) => if i < history.len() {
            let mut h = history.clone();
            assert(h@ =~= history@) by {
                assert(forall|k: int| 0 <= k < history@.len() ==> h@[k] == history@[k]);
            }
            h.remove(i);
            Some(h)
        } else {
            None
        },
        None => None,
    }
}

/// The root entry: the history's size.
pub fn history_entry(count: usize) -> (r: ResultItem)
    ensures
        r.is_entry(
            "open"@,
            "Clipboard history"@,
            Some(nat_digits(count as nat) + " entries"@),
            Some("edit-paste"@),
            6000,
        ),
{
    let mut n: Vec<char> = Vec::new();
    push_digits(count as u128, &mut n);
    ResultItem {
        id: "open".to_owned(),
        title: "Clipboard history".to_owned(),
        subtitle: Some(cat(string_of(&n).as_str(), " entries")),
        icon: Some("edit-paste".to_owned()),
        score: 6000,
        command_id: "open".to_owned(),
        actions: Vec::new(),
    }
}

/// No text occurs twice in `h`.
pub open spec fn distinct(h: Seq<Seq<char>>) -> bool {
    forall|i: int, j: int| 0 <= i < j < h.len() ==> h[i] != h[j]
}

/// Filtering keeps a sequence without repeats without repeats.
proof fn lemma_filter_distinct(s: Seq<Seq<char>>, pred: spec_fn(Seq<char>) -> bool)
    requires
        distinct(s),
    ensures
        distinct(s.filter(pred)),
    decreases s.len(),
{
    reveal(Seq::filter);
    if s.len() > 0 {
        let rest = s.drop_last();
        assert(distinct(rest));
        lemma_filter_distinct(rest, pred);
        if pred(s.last()) {
            let f = rest.filter(pred);
            assert forall|i: int| 0 <= i < f.len() implies f[i] != s.last() by {
                assert(f.contains(f[i]));
                rest.lemma_filter_contains_rev(pred, f[i]);
            }
        }
    }
}

/// Taking in the clipboard keeps the history free of repeats, within its
/// limit, with the new text first.
pub proof fn lemma_capture_keeps_history_distinct(history: Seq<Seq<char>>, current: Seq<char>)
    requires
        distinct(history),
    ensures
        captured(history, current) matches Some(h) ==> {
            &&& distinct(h)
            &&& 0 < h.len() <= MAX_ENTRIES
            &&& h[0] == current
        },
{
    if captured(history, current) is Some {
        let pred = other_than(current);
        let f = history.filter(pred);
        lemma_filter_distinct(history, pred);
        let h = seq![current] + f;
        assert forall|i: int, j: int| 0 <= i < j < h.len() implies h[i] != h[j] by {
            if i == 0 {
                history.lemma_filter_pred(pred, j - 1);
            } else {
                assert(h[i] == f[i - 1] && h[j] == f[j - 1]);
            }
        }
        assert(distinct(h));
        if h.len() > MAX_ENTRIES {
            let t = h.subrange(0, MAX_ENTRIES as int);
            assert forall|i: int, j: int| 0 <= i < j < t.len() implies t[i] != t[j] by {
                assert(t[i] == h[i] && t[j] == h[j]);
            }
            assert(captured(history, current) == Some(t));
        } else {
            assert(captured(history, current) == Some(h));
        }
    }
}

} // verus!
