//! Behaviour settings and quicklinks (`~/.config/nursearch/config.toml`), and
//! the recognition of an untouched copy of an old built-in stylesheet.
//!
//! Reading the TOML text into [`Settings`] is done by the application; this
//! module holds the settings model and the rules applied to a parsed file.

use crate::text::{chars_of, lowercase, to_lower, trim, trim_chars, string_of};
use vstd::prelude::*;

verus! {

/// Where the launcher window sits.
#[derive(Clone, Copy, Debug, PartialEq, Eq, Structural)]
pub enum Position {
    Center,
    Top,
}

/// Window placement and size.
#[derive(Clone, Debug, PartialEq, Eq, Structural)]
pub struct WindowSettings {
    pub position: Position,
    pub width: i32,
    pub top_margin: i32,
}

/// Search behaviour.
#[derive(Clone, Debug, PartialEq, Eq, Structural)]
pub struct SearchSettings {
    pub max_results: usize,
}

/// A user-defined web shortcut: `keyword term` opens `url` with `{query}`
/// replaced; without `{query}` it is a plain bookmark.
#[derive(Clone, Debug)]
pub struct Quicklink {
    pub keyword: String,
    pub name: String,
    pub url: String,
    pub icon: Option<String>,
}

/// Contents of `config.toml`. Every field has a default, so a partial or
/// missing file is fine.
#[derive(Clone, Debug)]
pub struct Settings {
    pub window: WindowSettings,
    pub search: SearchSettings,
    pub quicklinks: Vec<Quicklink>,
}

impl Default for Position {
    fn default() -> (r: Self)
        ensures
            r == Position::Center,
    {
        Position::Center
    }
}

impl Default for WindowSettings {
    fn default() -> (r: Self)
        ensures
            r == (WindowSettings { position: Position::Center, width: 720, top_margin: 160 }),
    {
        WindowSettings { position: Position::Center, width: 720, top_margin: 160 }
    }
}

impl Default for SearchSettings {
    fn default() -> (r: Self)
        ensures
            r.max_results == 12,
    {
        SearchSettings { max_results: 12 }
    }
}

impl Default for Settings {
    fn default() -> (r: Self)
        ensures
            r.window == (WindowSettings { position: Position::Center, width: 720, top_margin: 160 }),
            r.search.max_results == 12,
            r.quicklinks@.len() == 0,
    {
        Settings {
            window: WindowSettings { position: Position::Center, width: 720, top_margin: 160 },
            search: SearchSettings { max_results: 12 },
            quicklinks: Vec::new(),
        }
    }
}

/// `x` clamped into `[lo, hi]`.
pub open spec fn clamp_int(x: int, lo: int, hi: int) -> int {
    if x < lo {
        lo
    } else if x > hi {
        hi
    } else {
        x
    }
}

/// A quicklink is usable when its keyword and its URL are not blank.
pub open spec fn usable_link(l: Quicklink) -> bool {
    trim(l.keyword@).len() > 0 && trim(l.url@).len() > 0
}

/// The usable quicklinks of `links`, in order.
pub open spec fn usable_links(links: Seq<Quicklink>) -> Seq<Quicklink>
    decreases links.len(),
{
    if links.len() == 0 {
        seq![]
    } else {
        let head = usable_links(links.drop_last());
        if usable_link(links.last()) {
            head.push(links.last())
        } else {
            head
        }
    }
}

/// `out` is `link` with its keyword trimmed and lowercased.
pub open spec fn normalized_link(out: Quicklink, link: Quicklink) -> bool {
    &&& out.keyword@ == lowercase(trim(link.keyword@))
    &&& out.name == link.name
    &&& out.url == link.url
    &&& out.icon == link.icon
}

fn is_blank(s: &str) -> (r: bool)
    ensures
        r == (trim(s@).len() == 0),
{
    trim_chars(&chars_of(s)).len() == 0
}

impl Settings {
    /// The rules applied to a parsed settings file: the window width is
    /// clamped to 360..=2000, the top margin to 0..=2000 and the result count
    /// to 1..=50; quicklinks with a blank keyword or URL are dropped, and
    /// keywords are trimmed and lowercased.
    pub fn sanitize(self) -> (r: Self)
        ensures
            r.window.position == self.window.position,
            r.window.width == clamp_int(self.window.width as int, 360, 2000),
            r.window.top_margin == clamp_int(self.window.top_margin as int, 0, 2000),
            r.search.max_results == clamp_int(self.search.max_results as int, 1, 50),
            r.quicklinks@.len() == usable_links(self.quicklinks@).len(),
            forall|i: int|
                0 <= i < r.quicklinks@.len() ==> normalized_link(
                    #[trigger] r.quicklinks@[i],
                    usable_links(self.quicklinks@)[i],
                ),
    {
        let w = self.window.width;
        let width = if w < 360 {
            360
        } else if w > 2000 {
            2000
        } else {
            w
        };
        let m = self.window.top_margin;
        let top_margin = if m < 0 {
            0
        } else if m > 2000 {
            2000
        } else {
            m
        };
        let r = self.search.max_results;
        let max_results = if r < 1 {
            1
        } else if r > 50 {
            50
        } else {
            r
        };
        let links = self.quicklinks;
        let mut kept: Vec<Quicklink> = Vec::new();
        let mut i: usize = 0;
        while i < links.len()
            invariant
                i <= links@.len(),
                kept@.len() == usable_links(links@.subrange(0, i as int)).len(),
                forall|k: int|
                    0 <= k < kept@.len() ==> normalized_link(
                        #[trigger] kept@[k],
                        usable_links(links@.subrange(0, i as int))[k],
                    ),
            decreases links@.len() - i,
        {
            assert(links@.subrange(0, i + 1).drop_last() =~= links@.subrange(0, i as int));
            let link = &links[i];
            if !is_blank(link.keyword.as_str()) && !is_blank(link.url.as_str()) {
                let keyword = to_lower(string_of(&trim_chars(&chars_of(link.keyword.as_str()))).as_str());
                let icon = match &link.icon {
                    Some(x) => Some(x.clone()),
                    None => None,
                };
                kept.push(
                    Quicklink { keyword, name: link.name.clone(), url: link.url.clone(), icon },
                );
            }
            i = i + 1;
        }
        assert(links@.subrange(0, links@.len() as int) =~= links@);
        Settings {
            window: WindowSettings { position: self.window.position, width, top_margin },
            search: SearchSettings { max_results },
            quicklinks: kept,
        }
    }
}

// ---------------------------------------------------------------------------
// Legacy stylesheet detection
// ---------------------------------------------------------------------------

/// FNV-1a offset basis and prime (64-bit).
pub const FNV_OFFSET: u64 = 0xcbf2_9ce4_8422_2325;

pub const FNV_PRIME: u64 = 0x0100_0000_01b3;

/// The FNV-1a hash of `bytes`: starting from the offset basis, each byte is
/// xored in and the state multiplied by the prime, modulo 2^64.
pub open spec fn fnv1a_of(bytes: Seq<u8>) -> u64
    decreases bytes.len(),
{
    if bytes.len() == 0 {
        FNV_OFFSET
    } else {
        let h = fnv1a_of(bytes.drop_last());
        (((h ^ (bytes.last() as u64)) as int * FNV_PRIME as int) % 0x1_0000_0000_0000_0000) as u64
    }
}

/// 64-bit FNV-1a; stable across Rust versions, unlike `DefaultHasher`.
pub fn fnv1a(bytes: &[u8]) -> (h: u64)
    ensures
        h == fnv1a_of(bytes@),
{
    let mut h: u64 = FNV_OFFSET;
    let mut i: usize = 0;
    while i < bytes.len()
        invariant
            i <= bytes@.len(),
            h == fnv1a_of(bytes@.subrange(0, i as int)),
        decreases bytes@.len() - i,
    {
        assert(bytes@.subrange(0, i + 1).drop_last() =~= bytes@.subrange(0, i as int));
        let x: u64 = h ^ (bytes[i] as u64);
        h = x.wrapping_mul(FNV_PRIME);
        i = i + 1;
    }
    assert(bytes@.subrange(0, bytes@.len() as int) =~= bytes@);
    h
}

/// FNV-1a hash of the built-in theme that versions 0.2.x to 0.3.0 copied
/// verbatim into the user's stylesheet.
pub const LEGACY_THEME_HASH: u64 = 0x500f_2cf6_9c62_ddbc;

/// Whether `css` is a byte-identical copy of a previously shipped built-in
/// theme, recognised by its FNV-1a hash. Such an untouched copy would pin the
/// old look forever, so it is swapped for the starter template; edited files
/// never match and are kept.
pub fn is_legacy_default(css: &[u8]) -> (r: bool)
    ensures
        r == (fnv1a_of(css@) == LEGACY_THEME_HASH),
{
    fnv1a(css) == LEGACY_THEME_HASH
}

} // verus!
