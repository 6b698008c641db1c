//! The reference plugin, activated with the `demo` keyword: a root entry, a
//! list view with per-item actions, a drill-in detail view, and a copy
//! action the host carries out itself.

use crate::proto;
use crate::proto::{opt_text, Action, ActionKind, DetailView, Item, ListView, MetaPair, ResultItem, ViewEvent};
use crate::rank::{occurs, occurs_in};
use crate::text::{cat, chars_of, lowercase, str_eq, to_lower};
use vstd::prelude::*;

verus! {

/// The demo's items: `(title, body)` pairs.
pub struct Demo {
    pub items: Vec<(String, String)>,
}

/// A copy action titled `Copy name` that copies `text`.
pub open spec fn is_copy_name(a: Action, text: Seq<char>) -> bool {
    &&& a.id@ == "copy"@
    &&& a.title@ == "Copy name"@
    &&& a.icon is None
    &&& a.shortcut is None
    &&& a.kind matches ActionKind::Copy { text: t } && t@ == text
}

fn copy_name(text: &str) -> (r: Action)
    ensures
        is_copy_name(r, text@),
{
    Action {
        id: "copy".to_owned(),
        title: "Copy name".to_owned(),
        icon: None,
        shortcut: None,
        kind: ActionKind::Copy { text: text.to_owned() },
    }
}

/// The items listed for the lowercased filter `needle`.
pub open spec fn listed_demo_items(items: Seq<(String, String)>, needle: Seq<char>) -> Seq<(String, String)> {
    items.filter(|it: (String, String)| occurs_in(lowercase(it.0@), needle))
}

/// `item` shows the demo item `it`, with its detail and copy actions.
pub open spec fn is_demo_item(item: Item, it: (String, String)) -> bool {
    &&& item.shows(it.0@, it.0@, Some(it.1@), None)
    &&& item.accessories@.len() == 0
    &&& item.actions@.len() == 2
    &&& item.actions@[0].id@ == "detail"@
    &&& item.actions@[0].title@ == "Show detail"@
    &&& item.actions@[0].icon is None
    &&& item.actions@[0].shortcut is None
    &&& item.actions@[0].kind is Plugin
    &&& is_copy_name(item.actions@[1], it.0@)
}

/// The body shown for the item titled `id`: that of the first item with
/// this title, or nothing.
pub open spec fn body_of(items: Seq<(String, String)>, id: Seq<char>) -> Seq<char>
    decreases items.len(),
{
    if items.len() == 0 {
        seq![]
    } else if items[0].0@ == id {
        items[0].1@
    } else {
        body_of(items.subrange(1, items.len() as int), id)
    }
}

/// What the demo does with an event of its session.
pub enum DemoStep {
    /// Show the list again, filtered by `text`.
    Filter { text: String },
    /// Open the detail page of `item`.
    Detail { item: String },
    Ignore,
}

impl Demo {
    /// The root entry; the query text, when there is one, is echoed.
    pub fn query_item(text: &str) -> (r: ResultItem)
        ensures
            r.is_entry(
                "open"@,
                "Demo: browse items"@,
                Some(
                    if text@.len() == 0 {
                        "Open the demo list"@
                    } else {
                        "Open the demo list ("@ + text@ + ")"@
                    },
                ),
                Some("applications-other"@),
                5000,
            ),
    {
        let subtitle = if chars_of(text).len() == 0 {
            "Open the demo list".to_owned()
        } else {
            cat(cat("Open the demo list (", text).as_str(), ")")
        };
        ResultItem {
            id: "open".to_owned(),
            title: "Demo: browse items".to_owned(),
            subtitle: Some(subtitle),
            icon: Some("applications-other".to_owned()),
            score: 5000,
            command_id: "open".to_owned(),
            actions: Vec::new(),
        }
    }

    /// The items whose lowercased title holds the lowercased `filter`.
    pub fn list_view(&self, filter: &str) -> (r: proto::View)
        ensures
            r.is_list(Some("Demo items"@), Some("Filter demo items"@), Some("No matching items"@)),
            r.list_items().len() == listed_demo_items(self.items@, lowercase(filter@)).len(),
            forall|k: int|
                0 <= k < r.list_items().len() ==> is_demo_item(
                    #[trigger] r.list_items()[k],
                    listed_demo_items(self.items@, lowercase(filter@))[k],
                ),
    {
        let needle = chars_of(to_lower(filter).as_str());
        let ghost nd = lowercase(filter@);
        let ghost pred = |it: (String, String)| occurs_in(lowercase(it.0@), nd);
        let all = &self.items;
        let mut items: Vec<Item> = Vec::new();
        let mut i: usize = 0;
        while i < all.len()
            invariant
                needle@ == nd,
                pred == (|it: (String, String)| occurs_in(lowercase(it.0@), nd)),
                i <= all@.len(),
                items@.len() == all@.subrange(0, i as int).filter(pred).len(),
                forall|k: int|
                    0 <= k < items@.len() ==> is_demo_item(
                        #[trigger] items@[k],
                        all@.subrange(0, i as int).filter(pred)[k],
                    ),
            decreases all@.len() - i,
        {
            proof {
                reveal(Seq::filter);
            }
            assert(all@.subrange(0, i + 1).drop_last() =~= all@.subrange(0, i as int));
            let (title, body) = &all[i];
            if occurs(&chars_of(to_lower(title.as_str()).as_str()), &needle) {
                let mut actions: Vec<Action> = Vec::new();
                actions.push(
                    Action {
                        id: "detail".to_owned(),
                        title: "Show detail".to_owned(),
                        icon: None,
                        shortcut: None,
                        kind: ActionKind::Plugin,
                    },
                );
                actions.push(copy_name(title.as_str()));
                items.push(
                    Item {
                        id: title.clone(),
                        title: title.clone(),
                        subtitle: Some(body.clone()),
                        icon: None,
                        accessories: Vec::new(),
                        actions,
                    },
                );
            }
            i = i + 1;
        }
        assert(all@.subrange(0, all@.len() as int) =~= all@);
        proto::View::List(
            ListView {
                title: Some("Demo items".to_owned()),
                placeholder: Some("Filter demo items".to_owned()),
                items,
                empty_text: Some("No matching items".to_owned()),
                actions: Vec::new(),
            },
        )
    }

    /// The detail page of the item titled `id`.
    pub fn detail_view(&self, id: &str) -> (r: proto::View)
        ensures
            r matches proto::View::Detail(d) && {
                &&& opt_text(d.title) == Some(id@)
                &&& d.placeholder is None
                &&& opt_text(d.markdown) == Some(body_of(self.items@, id@))
                &&& d.metadata@.len() == 1
                &&& d.metadata@[0].label@ == "Item"@
                &&& d.metadata@[0].value@ == id@
                &&& d.actions@.len() == 1
                &&& is_copy_name(d.actions@[0], id@)
            },
    {
        let all = &self.items;
        let mut i: usize = 0;
        assert(all@.subrange(0, all@.len() as int) =~= all@);
        while i < all.len() && !str_eq(all[i].0.as_str(), id)
            invariant
                i <= all@.len(),
                body_of(all@, id@) == body_of(all@.subrange(i as int, all@.len() as int), id@),
            decreases all@.len() - i,
        {
            let ghost rest = all@.subrange(i as int, all@.len() as int);
            assert(rest.subrange(1, rest.len() as int) =~= all@.subrange(i + 1, all@.len() as int));
            i = i + 1;
        }
        let body = if i < all.len() {
            all[i].1.clone()
        } else {
            String::new()
        };
        let mut metadata: Vec<MetaPair> = Vec::new();
        metadata.push(MetaPair { label: "Item".to_owned(), value: id.to_owned() });
        let mut actions: Vec<Action> = Vec::new();
        actions.push(copy_name(id));
        proto::View::Detail(
            DetailView {
                title: Some(id.to_owned()),
                placeholder: None,
                markdown: Some(body),
                metadata,
                actions,
            },
        )
    }
}

/// The step for an event: typing filters the list; the `detail` action on
/// an item opens its page.
pub fn demo_step(event: &ViewEvent) -> (r: DemoStep)
    ensures
        match event {
            ViewEvent::Input { text } => r matches DemoStep::Filter { text: t } && t@ == text@,
            ViewEvent::Action { action_id, item_id: Some(item) } => if action_id@ == "detail"@ {
                r matches DemoStep::Detail { item: it } && it@ == item@
            } else {
                r is Ignore
            },
            _ => r is Ignore,
        },
{
    match event {
        ViewEvent::Input { text } => DemoStep::Filter { text: text.clone() },
        ViewEvent::Action { action_id, item_id: Some(item) } => if str_eq(action_id.as_str(), "detail") {
            DemoStep::Detail { item: item.clone() }
        } else {
            DemoStep::Ignore
        },
        _ => DemoStep::Ignore,
    }
}

} // verus!
