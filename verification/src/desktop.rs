//! Desktop applications as the launcher sees them, and the parsing of
//! `.desktop` files into them.

use crate::text::{chars_of, string_of};
use vstd::prelude::*;

verus! {

/// A visible application from a `.desktop` file.
#[derive(Clone, Debug)]
pub struct DesktopEntry {
    pub name: String,
    pub generic_name: Option<String>,
    pub comment: Option<String>,
    pub keywords: Vec<String>,
    /// The cleaned `Exec` command line, field codes removed.
    pub exec_line: Option<String>,
    pub icon: Option<String>,
    /// Path of the `.desktop` file; also the entry's history key.
    pub path: String,
    pub dbus_activatable: bool,
    pub terminal: bool,
}

/// `parts` joined with single spaces.
pub open spec fn join_spaced(parts: Seq<Seq<char>>) -> Seq<char>
    decreases parts.len(),
{
    if parts.len() == 0 {
        seq![]
    } else if parts.len() == 1 {
        parts[0]
    } else {
        join_spaced(parts.drop_last()) + seq![' '] + parts.last()
    }
}

/// The metadata a weaker match may hit: generic name, comment, keywords.
pub open spec fn metadata_parts(e: DesktopEntry) -> Seq<Seq<char>> {
    (match e.generic_name {
        Some(g) => seq![g@],
        None => seq![],
    }) + (match e.comment {
        Some(c) => seq![c@],
        None => seq![],
    }) + e.keywords@.map_values(|k: String| k@)
}

pub open spec fn search_text_of(e: DesktopEntry) -> Seq<char> {
    join_spaced(metadata_parts(e))
}

fn push_all(out: &mut Vec<char>, s: &str)
    ensures
        final(out)@ == old(out)@ + s@,
{
    let w = chars_of(s);
    let mut i: usize = 0;
    let ghost base = out@;
    while i < w.len()
        invariant
            i <= w@.len(),
            out@ == base + w@.subrange(0, i as int),
        decreases w@.len() - i,
    {
        out.push(w[i]);
        i = i + 1;
        assert(out@ =~= base + w@.subrange(0, i as int));
    }
    assert(w@.subrange(0, w@.len() as int) =~= w@);
}

fn push_part(out: &mut Vec<char>, any: &mut bool, part: &str, Ghost(parts): Ghost<Seq<Seq<char>>>)
    requires
        old(out)@ == join_spaced(parts),
        *old(any) == (parts.len() > 0),
    ensures
        final(out)@ == join_spaced(parts.push(part@)),
        *final(any),
{
    let ghost np = parts.push(part@);
    assert(np.drop_last() =~= parts);
    if *any {
        out.push(' ');
    } else {
        assert(out@ =~= seq![]);
    }
    push_all(out, part);
    *any = true;
    proof {
        if parts.len() == 0 {
            assert(out@ =~= np[0]);
        } else {
            assert(out@ =~= join_spaced(parts) + seq![' '] + part@);
        }
    }
}

/// Two entries hold the same fields (the keyword lists by their contents).
pub open spec fn same_entry(a: DesktopEntry, b: DesktopEntry) -> bool {
    &&& a.name == b.name
    &&& a.generic_name == b.generic_name
    &&& a.comment == b.comment
    &&& a.keywords@ == b.keywords@
    &&& a.exec_line == b.exec_line
    &&& a.icon == b.icon
    &&& a.path == b.path
    &&& a.dbus_activatable == b.dbus_activatable
    &&& a.terminal == b.terminal
}

fn copy_opt(s: &Option<String>) -> (r: Option<String>)
    ensures
        r == *s,
{
    match s {
        Some(x) => Some(x.clone()),
        None => None,
    }
}

impl DesktopEntry {
    /// A field-by-field copy of the entry.
    pub fn duplicate(&self) -> (r: Self)
        ensures
            same_entry(r, *self),
    {
        let mut keywords: Vec<String> = Vec::new();
        let mut i: usize = 0;
        while i < self.keywords.len()
            invariant
                i <= self.keywords@.len(),
                keywords@ == self.keywords@.subrange(0, i as int),
            decreases self.keywords@.len() - i,
        {
            keywords.push(self.keywords[i].clone());
            i = i + 1;
            assert(keywords@ =~= self.keywords@.subrange(0, i as int));
        }
        assert(keywords@ =~= self.keywords@);
        let r = DesktopEntry {
            name: self.name.clone(),
            generic_name: copy_opt(&self.generic_name),
            comment: copy_opt(&self.comment),
            keywords,
            exec_line: copy_opt(&self.exec_line),
            icon: copy_opt(&self.icon),
            path: self.path.clone(),
            dbus_activatable: self.dbus_activatable,
            terminal: self.terminal,
        };
        r
    }

    /// Generic name, comment and keywords, space-separated: the text the
    /// weaker metadata match runs over.
    pub fn search_text(&self) -> (r: String)
        ensures
            r@ == search_text_of(*self),
    {
        let mut out: Vec<char> = Vec::new();
        let mut any: bool = false;
        let ghost mut parts: Seq<Seq<char>> = seq![];
        match &self.generic_name {
            Some(g) => {
                push_part(&mut out, &mut any, g.as_str(), Ghost(parts));
                proof {
                    parts = parts.push(g@);
                }
            },
            None => {},
        }
        match &self.comment {
            Some(c) => {
                push_part(&mut out, &mut any, c.as_str(), Ghost(parts));
                proof {
                    parts = parts.push(c@);
                }
            },
            None => {},
        }
        let ghost head = parts;
        let mut i: usize = 0;
        while i < self.keywords.len()
            invariant
                i <= self.keywords@.len(),
                head.len() <= 2,
                parts == head + self.keywords@.map_values(|k: String| k@).subrange(0, i as int),
                out@ == join_spaced(parts),
                any == (parts.len() > 0),
            decreases self.keywords@.len() - i,
        {
            push_part(&mut out, &mut any, self.keywords[i].as_str(), Ghost(parts));
            proof {
                parts = parts.push(self.keywords@[i as int]@);
            }
            i = i + 1;
            assert(parts =~= head + self.keywords@.map_values(|k: String| k@).subrange(0, i as int));
        }
        proof {
            assert(self.keywords@.map_values(|k: String| k@).subrange(
                0,
                self.keywords@.len() as int,
            ) =~= self.keywords@.map_values(|k: String| k@));
            assert(parts =~= metadata_parts(*self));
        }
        string_of(&out)
    }
}

} // verus!
