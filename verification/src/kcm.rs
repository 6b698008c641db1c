//! KDE System Settings pages (KCMs) as search results, so "bluetooth", "hdr"
//! or "maus" opens the matching settings page directly.
//!
//! Names, descriptions, icons and search keywords come from the Qt plugin
//! metadata embedded in each KCM's shared object (an ELF note holding CBOR).
//! Finding the plugin files and reading them is the application's part.

use crate::ranking::{lemma_lex_order, lex_less, lex_lt};
use crate::text::{cat, chars_eq, chars_of, lowercase, str_eq, string_of, sub_chars, to_lower, trim, trim_chars};
use vstd::prelude::*;

verus! {

/// `ciborium::Value`, the decoded CBOR item.
#[verifier::external_type_specification]
#[verifier::external_body]
pub struct ExCborValue(ciborium::Value);

/// The parts of a CBOR item the metadata is read from: text, integers and
/// maps; anything else is kept only as "something else".
#[derive(Debug)]
pub enum Meta {
    Text(String),
    Integer(i128),
    Entries(Vec<(Meta, Meta)>),
    Other,
}

/// One System Settings page.
#[derive(Clone, Debug, PartialEq, Eq)]
pub struct SettingsPage {
    /// Plugin id, e.g. `kcm_kscreen`; passed to `systemsettings`.
    pub id: String,
    pub name: String,
    pub description: Option<String>,
    pub icon: Option<String>,
    /// Lowercased search keywords, English plus the session language.
    pub keywords: Vec<String>,
}

/// Marker preceding the metadata in Qt 6 plugins (`.note.qt.metadata`).
pub open spec fn qt_note_name() -> Seq<u8> {
    seq![0x71u8, 0x74, 0x2d, 0x70, 0x72, 0x6f, 0x6a, 0x65, 0x63, 0x74, 0x21, 0x00]
}

/// What `ciborium::from_reader` decodes from the front of `bytes` (one CBOR
/// item; `None` when that fails), as [`Meta`].
pub uninterp spec fn cbor_item(bytes: Seq<u8>) -> Option<Meta>;

/// `ciborium::Value` as [`Meta`], variant by variant.
#[verifier::external_body]
fn meta_of_cbor(v: ciborium::Value) -> Meta {
    match v {
        ciborium::Value::Text(t) => Meta::Text(t),
        ciborium::Value::Integer(i) => Meta::Integer(i128::from(i)),
        ciborium::Value::Map(entries) => Meta::Entries(
            entries.into_iter().map(|(k, v)| (meta_of_cbor(k), meta_of_cbor(v))).collect(),
        ),
        _ => Meta::Other,
    }
}

/// Calls `ciborium::from_reader` on `bytes` for a `ciborium::Value` and
/// converts it. The contract names the result [`cbor_item`] of the bytes.
#[verifier::external_body]
fn decode_cbor(bytes: &[u8]) -> (r: Option<Meta>)
    ensures
        r == cbor_item(bytes@),
{
    ciborium::from_reader::<ciborium::Value, _>(bytes).ok().map(meta_of_cbor)
}

/// First position of `needle` in `haystack`.
pub open spec fn find_bytes(haystack: Seq<u8>, needle: Seq<u8>, i: int) -> Option<int>
    decreases haystack.len() - i,
{
    if i < 0 || i >= haystack.len() || i + needle.len() > haystack.len() {
        None
    } else if haystack.subrange(i, i + needle.len()) == needle {
        Some(i)
    } else {
        find_bytes(haystack, needle, i + 1)
    }
}

fn bytes_at(h: &[u8], n: &[u8], i: usize) -> (r: bool)
    requires
        i + n@.len() <= h@.len(),
    ensures
        r == (h@.subrange(i as int, i + n@.len()) == n@),
{
    let hl = h.len();
    let mut k: usize = 0;
    while k < n.len()
        invariant
            hl == h@.len(),
            i + n@.len() <= hl,
            k <= n@.len(),
            forall|j: int| 0 <= j < k ==> h@[i + j] == n@[j],
        decreases n@.len() - k,
    {
        if h[i + k] != n[k] {
            assert(h@.subrange(i as int, i + n@.len())[k as int] != n@[k as int]);
            return false;
        }
        k = k + 1;
    }
    assert(h@.subrange(i as int, i + n@.len()) =~= n@);
    true
}

fn find_in(haystack: &[u8], needle: &[u8]) -> (r: Option<usize>)
    requires
        needle@.len() > 0,
    ensures
        match r {
            Some(i) => find_bytes(haystack@, needle@, 0) == Some(i as int) && i + needle@.len()
                <= haystack@.len(),
            None => find_bytes(haystack@, needle@, 0) is None,
        },
{
    let hl = haystack.len();
    let nl = needle.len();
    if nl > hl {
        return None;
    }
    let mut i: usize = 0;
    while i <= hl - nl
        invariant
            hl == haystack@.len(),
            nl == needle@.len(),
            0 < nl <= hl,
            i <= hl - nl + 1,
            find_bytes(haystack@, needle@, 0) == find_bytes(haystack@, needle@, i as int),
        decreases hl - i,
    {
        if bytes_at(haystack, needle, i) {
            return Some(i);
        }
        i = i + 1;
    }
    None
}

/// The value under the first key of `entries` (from position `i` on) that
/// `is_key` accepts.
pub open spec fn entry_where(entries: Seq<(Meta, Meta)>, is_key: spec_fn(Meta) -> bool, i: int) -> Option<Meta>
    decreases entries.len() - i,
{
    if i < 0 || i >= entries.len() {
        None
    } else if is_key(entries[i].0) {
        Some(entries[i].1)
    } else {
        entry_where(entries, is_key, i + 1)
    }
}

pub open spec fn text_key(key: Seq<char>) -> spec_fn(Meta) -> bool {
    |k: Meta| k matches Meta::Text(t) && t@ == key
}

pub open spec fn int_key(n: i128) -> spec_fn(Meta) -> bool {
    |k: Meta| k == Meta::Integer(n)
}

/// The value under the text key `key` in `map`, when `map` is a map.
pub open spec fn get_text(map: Meta, key: Seq<char>) -> Option<Meta> {
    match map {
        Meta::Entries(entries) => entry_where(entries@, text_key(key), 0),
        _ => None,
    }
}

/// The metadata map a Qt 6 plugin binary carries: after the note marker come
/// four header bytes (format version, Qt major, Qt minor, flags), then a
/// CBOR map whose key 4 holds the plugin's metadata.
pub open spec fn embedded_metadata_of(bytes: Seq<u8>) -> Option<Meta> {
    match find_bytes(bytes, qt_note_name(), 0) {
        None => None,
        Some(start) => if start + 16 > bytes.len() {
            None
        } else {
            match cbor_item(bytes.subrange(start + 16, bytes.len() as int)) {
                Some(Meta::Entries(entries)) => entry_where(entries@, int_key(4), 0),
                _ => None,
            }
        },
    }
}

fn is_text_key(k: &Meta, key: &str) -> (r: bool)
    ensures
        r == (text_key(key@))(*k),
{
    match k {
        Meta::Text(t) => str_eq(t.as_str(), key),
        _ => false,
    }
}

/// The value under the text key `key` in `map`.
#[verifier::loop_isolation(false)]
fn get_text_exec<'a>(map: &'a Meta, key: &str) -> (r: Option<&'a Meta>)
    ensures
        match r {
            Some(v) => get_text(*map, key@) == Some(*v),
            None => get_text(*map, key@) is None,
        },
{
    match map {
        Meta::Entries(entries) => {
            let mut i: usize = 0;
            while i < entries.len()
                invariant
                    i <= entries@.len(),
                    entry_where(entries@, text_key(key@), 0) == entry_where(
                        entries@,
                        text_key(key@),
                        i as int,
                    ),
                decreases entries@.len() - i,
            {
                if is_text_key(&entries[i].0, key) {
                    assert(entry_where(entries@, text_key(key@), i as int) == Some(entries@[i as int].1));
                    assert(get_text(*map, key@) == entry_where(entries@, text_key(key@), 0));
                    let v = &entries[i].1;
                    assert(*v == entries@[i as int].1);
                    return Some(v);
                }
                i = i + 1;
            }
            None
        },
        _ => None,
    }
}

/// The metadata map embedded in a Qt 6 plugin binary, if there is one.
#[verifier::loop_isolation(false)]
pub fn embedded_metadata(bytes: &[u8]) -> (r: Option<Meta>)
    ensures
        r == embedded_metadata_of(bytes@),
{
    let marker: &[u8] = &[0x71u8, 0x74, 0x2d, 0x70, 0x72, 0x6f, 0x6a, 0x65, 0x63, 0x74, 0x21, 0x00];
    assert(marker@ =~= qt_note_name());
    let start = match find_in(bytes, marker) {
        Some(s) => s,
        None => return None,
    };
    let n = bytes.len();
    if start > n || n - start < 16 {
        return None;
    }
    let mut tail: Vec<u8> = Vec::new();
    let mut i = start + 16;
    while i < n
        invariant
            start + 16 <= i <= n,
            n == bytes@.len(),
            tail@ == bytes@.subrange(start + 16, i as int),
        decreases n - i,
    {
        tail.push(bytes[i]);
        i = i + 1;
        assert(tail@ =~= bytes@.subrange(start + 16, i as int));
    }
    assert(tail@ =~= bytes@.subrange(start + 16, bytes@.len() as int));
    assert(find_bytes(bytes@, qt_note_name(), 0) == Some(start as int));
    let decoded = decode_cbor(tail.as_slice());
    assert(embedded_metadata_of(bytes@) == match cbor_item(tail@) {
        Some(Meta::Entries(entries)) => entry_where(entries@, int_key(4), 0),
        _ => None,
    });
    match decoded {
        Some(Meta::Entries(entries)) => {
            assert(embedded_metadata_of(bytes@) == entry_where(entries@, int_key(4), 0));
            let mut entries = entries;
            let mut k: usize = 0;
            while k < entries.len()
                invariant
                    k <= entries@.len(),
                    embedded_metadata_of(bytes@) == entry_where(entries@, int_key(4), 0),
                    entry_where(entries@, int_key(4), 0) == entry_where(entries@, int_key(4), k as int),
                decreases entries@.len() - k,
            {
                let hit = match &entries[k].0 {
                    Meta::Integer(v) => *v == 4,
                    _ => false,
                };
                if hit {
                    assert((int_key(4))(entries@[k as int].0));
                    assert(entry_where(entries@, int_key(4), k as int) == Some(entries@[k as int].1));
                    let (_, value) = entries.remove(k);
                    return Some(value);
                }
                k = k + 1;
            }
            None
        },
        _ => None,
    }
}

// ---------------------------------------------------------------------------
// Pages from metadata
// ---------------------------------------------------------------------------

/// The text under `key` in `map`.
pub open spec fn text_of(map: Meta, key: Seq<char>) -> Option<Seq<char>> {
    match get_text(map, key) {
        Some(Meta::Text(t)) => Some(t@),
        _ => None,
    }
}

/// The translation `key[lang]` (none for English, the untranslated language).
pub open spec fn localized_only_of(map: Meta, key: Seq<char>, lang: Seq<char>) -> Option<Seq<char>> {
    if lang == "en"@ {
        None
    } else {
        text_of(map, key + "["@ + lang + "]"@)
    }
}

/// `key[lang]` if present, else the untranslated `key`.
pub open spec fn localized_of(map: Meta, key: Seq<char>, lang: Seq<char>) -> Option<Seq<char>> {
    match localized_only_of(map, key, lang) {
        Some(t) => Some(t),
        None => text_of(map, key),
    }
}

/// The pieces of `s` from position `i` on, split at every `,`.
pub open spec fn comma_pieces(s: Seq<char>, i: int) -> Seq<Seq<char>>
    decreases s.len() - i,
{
    if i < 0 || i > s.len() {
        seq![]
    } else {
        let j = comma_at(s, i);
        if i <= j < s.len() {
            seq![s.subrange(i, j)] + comma_pieces(s, j + 1)
        } else {
            seq![s.subrange(i, s.len() as int)]
        }
    }
}

/// Position of the first `,` at or after `i`, or the length.
pub open spec fn comma_at(s: Seq<char>, i: int) -> int
    decreases s.len() - i,
{
    if i < 0 || i >= s.len() {
        s.len() as int
    } else if s[i] == ',' {
        i
    } else {
        comma_at(s, i + 1)
    }
}

/// KCMs can be limited to X11 or Wayland; the ones for the other platform
/// are hidden.
pub open spec fn shows_on(metadata: Meta, wayland: bool) -> bool {
    match text_of(metadata, "X-KDE-OnlyShowOnQtPlatforms"@) {
        None => true,
        Some(p) => lists_platform(p, platform_name(wayland)),
    }
}

/// The Qt platform name of the session: `wayland` or `xcb`.
pub open spec fn platform_name(wayland: bool) -> Seq<char> {
    if wayland {
        "wayland"@
    } else {
        "xcb"@
    }
}

/// The comma-separated list `p` names the platform `name`.
pub open spec fn lists_platform(p: Seq<char>, name: Seq<char>) -> bool {
    exists|i: int| 0 <= i < comma_pieces(p, 0).len() && trim(#[trigger] comma_pieces(p, 0)[i]) == name
}

/// `k` is one of the comma-separated keywords of `text`, trimmed and
/// lowercased.
pub open spec fn keyword_in(k: Seq<char>, text: Option<Seq<char>>) -> bool {
    text matches Some(t) && exists|i: int|
        0 <= i < comma_pieces(t, 0).len() && lowercase(trim(#[trigger] comma_pieces(t, 0)[i])) == k
}

/// Some string of `v` holds the text `x`.
pub open spec fn has_text(v: Seq<String>, x: Seq<char>) -> bool {
    exists|i: int| 0 <= i < v.len() && (#[trigger] v[i])@ == x
}

/// `ks` lists, sorted and each once, exactly the non-empty keywords of `a`
/// and `b`.
pub open spec fn keywords_of(ks: Seq<String>, a: Option<Seq<char>>, b: Option<Seq<char>>) -> bool {
    &&& forall|i: int, j: int| 0 <= i < j < ks.len() ==> lex_lt((#[trigger] ks[i])@, (#[trigger] ks[j])@)
    &&& forall|i: int|
        0 <= i < ks.len() ==> (#[trigger] ks[i])@.len() > 0 && (keyword_in(ks[i]@, a)
            || keyword_in(ks[i]@, b))
    &&& forall|k: Seq<char>|
        k.len() > 0 && (keyword_in(k, a) || keyword_in(k, b)) ==> #[trigger] has_text(ks, k)
}

/// `o` without an empty text.
pub open spec fn non_empty(o: Option<Seq<char>>) -> Option<Seq<char>> {
    match o {
        Some(t) => if t.len() > 0 {
            Some(t)
        } else {
            None
        },
        None => None,
    }
}

fn text_exec(map: &Meta, key: &str) -> (r: Option<String>)
    ensures
        match r {
            Some(t) => text_of(*map, key@) == Some(t@),
            None => text_of(*map, key@) is None,
        },
{
    match get_text_exec(map, key) {
        Some(Meta::Text(t)) => Some(t.clone()),
        _ => None,
    }
}

fn localized_only_exec(map: &Meta, key: &str, lang: &str) -> (r: Option<String>)
    ensures
        match r {
            Some(t) => localized_only_of(*map, key@, lang@) == Some(t@),
            None => localized_only_of(*map, key@, lang@) is None,
        },
{
    if str_eq(lang, "en") {
        return None;
    }
    let k = cat(cat(cat(key, "[").as_str(), lang).as_str(), "]");
    text_exec(map, k.as_str())
}

fn localized_exec(map: &Meta, key: &str, lang: &str) -> (r: Option<String>)
    ensures
        match r {
            Some(t) => localized_of(*map, key@, lang@) == Some(t@),
            None => localized_of(*map, key@, lang@) is None,
        },
{
    match localized_only_exec(map, key, lang) {
        Some(t) => Some(t),
        None => text_exec(map, key),
    }
}

/// The comma-separated pieces of `s`.
fn split_commas(s: &[char]) -> (r: Vec<Vec<char>>)
    ensures
        r@.len() == comma_pieces(s@, 0).len(),
        forall|k: int| 0 <= k < r@.len() ==> (#[trigger] r@[k])@ == comma_pieces(s@, 0)[k],
{
    let n = s.len();
    let mut out: Vec<Vec<char>> = Vec::new();
    let mut i: usize = 0;
    loop
        invariant
            n == s@.len(),
            i <= n,
            comma_pieces(s@, 0).len() == out@.len() + comma_pieces(s@, i as int).len(),
            forall|k: int| 0 <= k < out@.len() ==> (#[trigger] out@[k])@ == comma_pieces(s@, 0)[k],
            forall|k: int|
                0 <= k < comma_pieces(s@, i as int).len() ==> comma_pieces(s@, 0)[out@.len() + k]
                    == #[trigger] comma_pieces(s@, i as int)[k],
        decreases n - i,
    {
        let mut j = i;
        while j < n && s[j] != ','
            invariant
                i <= j <= n,
                n == s@.len(),
                comma_at(s@, i as int) == comma_at(s@, j as int),
            decreases n - j,
        {
            j = j + 1;
        }
        let ghost here = comma_pieces(s@, i as int);
        let piece = sub_chars(s, i, j);
        assert(comma_pieces(s@, 0)[out@.len() + 0int] == here[0]);
        out.push(piece);
        if j < n {
            let ghost rest = comma_pieces(s@, j + 1);
            assert(here =~= seq![s@.subrange(i as int, j as int)] + rest);
            proof {
                assert forall|k: int| 0 <= k < rest.len() implies comma_pieces(s@, 0)[out@.len() + k]
                    == #[trigger] rest[k] by {
                    assert(here[k + 1] == rest[k]);
                }
            }
            i = j + 1;
        } else {
            return out;
        }
    }
}

/// Insert `k` into the strictly sorted list `out` unless it is there.
fn insert_sorted(out: &mut Vec<String>, k: String)
    requires
        forall|i: int, j: int|
            0 <= i < j < old(out)@.len() ==> lex_lt((#[trigger] old(out)@[i])@, (#[trigger] old(out)@[j])@),
    ensures
        forall|i: int, j: int|
            0 <= i < j < final(out)@.len() ==> lex_lt(
                (#[trigger] final(out)@[i])@,
                (#[trigger] final(out)@[j])@,
            ),
        forall|x: Seq<char>|
            #[trigger] has_text(final(out)@, x) <==> (x == k@ || has_text(old(out)@, x)),
{
    let kc = chars_of(k.as_str());
    let mut p: usize = 0;
    while p < out.len() && lex_less(&chars_of(out[p].as_str()), &kc)
        invariant
            p <= out@.len(),
            kc@ == k@,
            forall|i: int| 0 <= i < p ==> lex_lt((#[trigger] out@[i])@, k@),
        decreases out@.len() - p,
    {
        p = p + 1;
    }
    let ghost before = out@;
    if p < out.len() && str_eq(out[p].as_str(), k.as_str()) {
        return;
    }
    proof {
        if p < before.len() {
            lemma_lex_order(before[p as int]@, k@, k@);
            assert(lex_lt(k@, before[p as int]@));
            assert forall|i: int| p <= i < before.len() implies lex_lt(k@, (#[trigger] before[i])@) by {
                if i > p {
                    lemma_lex_order(k@, before[p as int]@, before[i]@);
                }
            }
        }
    }
    out.insert(p, k);
    proof {
        assert forall|i: int, j: int| 0 <= i < j < out@.len() implies lex_lt(
            (#[trigger] out@[i])@,
            (#[trigger] out@[j])@,
        ) by {
            if j < p {
                assert(out@[i] == before[i] && out@[j] == before[j]);
            } else if j == p {
                assert(out@[i] == before[i]);
            } else if i < p {
                assert(out@[i] == before[i] && out@[j] == before[j - 1]);
                lemma_lex_order(before[i]@, k@, before[j - 1]@);
            } else if i == p {
                assert(out@[j] == before[j - 1]);
            } else {
                assert(out@[i] == before[i - 1] && out@[j] == before[j - 1]);
            }
        }
        assert forall|x: Seq<char>| (x == k@ || has_text(before, x)) implies #[trigger] has_text(out@, x) by {
            if x == k@ {
                assert(out@[p as int]@ == x);
            } else {
                let i = choose|i: int| 0 <= i < before.len() && (#[trigger] before[i])@ == x;
                if i < p {
                    assert(out@[i] == before[i]);
                } else {
                    assert(out@[i + 1] == before[i]);
                }
            }
        }
        assert forall|x: Seq<char>| #[trigger] has_text(out@, x) implies (x == k@ || has_text(before, x)) by {
            {
                let i = choose|i: int| 0 <= i < out@.len() && (#[trigger] out@[i])@ == x;
                if i < p {
                    assert(out@[i] == before[i]);
                } else if i > p {
                    assert(out@[i] == before[i - 1]);
                }
            }
        }
    }
}

/// Add the keywords of `text` to the sorted list `out`.
fn add_keywords(out: &mut Vec<String>, text: &Option<String>, Ghost(a): Ghost<Option<Seq<char>>>, Ghost(b): Ghost<Option<Seq<char>>>, Ghost(first): Ghost<bool>)
    requires
        opt_view_str(*text) == (if first { a } else { b }),
        forall|i: int, j: int|
            0 <= i < j < old(out)@.len() ==> lex_lt((#[trigger] old(out)@[i])@, (#[trigger] old(out)@[j])@),
        forall|i: int|
            0 <= i < old(out)@.len() ==> (#[trigger] old(out)@[i])@.len() > 0 && (keyword_in(old(out)@[i]@, a)
                || keyword_in(old(out)@[i]@, b)),
        !first ==> forall|k: Seq<char>|
            k.len() > 0 && keyword_in(k, a) ==> #[trigger] has_text(old(out)@, k),
        first ==> old(out)@.len() == 0,
    ensures
        forall|i: int, j: int|
            0 <= i < j < final(out)@.len() ==> lex_lt((#[trigger] final(out)@[i])@, (#[trigger] final(out)@[j])@),
        forall|i: int|
            0 <= i < final(out)@.len() ==> (#[trigger] final(out)@[i])@.len() > 0 && (keyword_in(
                final(out)@[i]@,
                a,
            ) || keyword_in(final(out)@[i]@, b)),
        forall|k: Seq<char>|
            k.len() > 0 && (keyword_in(k, a) || (!first && keyword_in(k, b))) ==> #[trigger] has_text(
                final(out)@,
                k,
            ),
{
    let t = match text {
        Some(t) => t,
        None => {
            proof {
                assert forall|k: Seq<char>|
                    k.len() > 0 && (keyword_in(k, a) || (!first && keyword_in(k, b))) implies #[trigger] has_text(
                    out@,
                    k,
                ) by {
                    if first {
                        assert(!keyword_in(k, a));
                    } else {
                        assert(!keyword_in(k, b));
                    }
                }
            }
            return;
        },
    };
    let ghost src = t@;
    let pieces = split_commas(&chars_of(t.as_str()));
    let ghost start = out@;
    let mut i: usize = 0;
    while i < pieces.len()
        invariant
            opt_view_str(*text) == Some(src),
            src == (if first { a } else { b }).unwrap(),
            (if first { a } else { b }) is Some,
            pieces@.len() == comma_pieces(src, 0).len(),
            forall|m: int| 0 <= m < pieces@.len() ==> (#[trigger] pieces@[m])@ == comma_pieces(src, 0)[m],
            i <= pieces@.len(),
            forall|x: int, y: int|
                0 <= x < y < out@.len() ==> lex_lt((#[trigger] out@[x])@, (#[trigger] out@[y])@),
            forall|x: int|
                0 <= x < out@.len() ==> (#[trigger] out@[x])@.len() > 0 && (keyword_in(out@[x]@, a)
                    || keyword_in(out@[x]@, b)),
            forall|y: Seq<char>| #[trigger] has_text(start, y) ==> has_text(out@, y),
            forall|m: int|
                0 <= m < i && lowercase(trim(comma_pieces(src, 0)[m])).len() > 0 ==> has_text(
                    out@,
                    lowercase(trim(#[trigger] comma_pieces(src, 0)[m])),
                ),
        decreases pieces@.len() - i,
    {
        let kw = to_lower(string_of(&trim_chars(&pieces[i])).as_str());
        if !kw.as_str().is_empty() {
            let ghost kv = kw@;
            assert(kv == lowercase(trim(comma_pieces(src, 0)[i as int])));
            assert(keyword_in(kv, if first { a } else { b }));
            let ghost prev = out@;
            insert_sorted(out, kw);
            proof {
                assert forall|x: int| 0 <= x < out@.len() implies (#[trigger] out@[x])@.len() > 0 && (
                keyword_in(out@[x]@, a) || keyword_in(out@[x]@, b)) by {
                    assert(has_text(out@, out@[x]@));
                    if out@[x]@ != kv {
                        assert(has_text(prev, out@[x]@));
                        let y = choose|y: int| 0 <= y < prev.len() && (#[trigger] prev[y])@ == out@[x]@;
                        assert(prev[y]@.len() > 0);
                    }
                }
            }
        }
        i = i + 1;
    }
    proof {
        assert forall|k: Seq<char>|
            k.len() > 0 && (keyword_in(k, a) || (!first && keyword_in(k, b))) implies #[trigger] has_text(
            out@,
            k,
        ) by {
            if (first && keyword_in(k, a)) || (!first && keyword_in(k, b)) {
                let m = choose|m: int|
                    0 <= m < comma_pieces(src, 0).len() && lowercase(trim(#[trigger] comma_pieces(src, 0)[m])) == k;
            } else {
                assert(!first && keyword_in(k, a));
                assert(has_text(start, k));
            }
        }
    }
}

pub open spec fn opt_view_str(o: Option<String>) -> Option<Seq<char>> {
    match o {
        Some(s) => Some(s@),
        None => None,
    }
}

fn shows_on_exec(metadata: &Meta, wayland: bool) -> (r: bool)
    ensures
        r == shows_on(*metadata, wayland),
{
    let platforms = match text_exec(metadata, "X-KDE-OnlyShowOnQtPlatforms") {
        Some(p) => p,
        None => return true,
    };
    let current = if wayland {
        chars_of("wayland")
    } else {
        chars_of("xcb")
    };
    let pieces = split_commas(&chars_of(platforms.as_str()));
    let mut i: usize = 0;
    while i < pieces.len()
        invariant
            text_of(*metadata, "X-KDE-OnlyShowOnQtPlatforms"@) == Some(platforms@),
            i <= pieces@.len(),
            pieces@.len() == comma_pieces(platforms@, 0).len(),
            forall|m: int| 0 <= m < pieces@.len() ==> (#[trigger] pieces@[m])@ == comma_pieces(platforms@, 0)[m],
            current@ == (if wayland { "wayland"@ } else { "xcb"@ }),
            forall|m: int| 0 <= m < i ==> trim(#[trigger] comma_pieces(platforms@, 0)[m]) != current@,
        decreases pieces@.len() - i,
    {
        if chars_eq(&trim_chars(&pieces[i]), &current) {
            assert(trim(comma_pieces(platforms@, 0)[i as int]) == platform_name(wayland));
            return true;
        }
        i = i + 1;
    }
    false
}

/// The settings page a KCM's metadata describes, in session language `lang`
/// (a two-letter code) on Wayland (`wayland`) or X11: it needs a non-empty
/// (localized) name under `KPlugin` and must be meant for this platform.
/// The keywords are those of the English and the session language, trimmed
/// and lowercased, sorted, each once.
pub fn page_from_metadata(id: String, metadata: &Meta, lang: &str, wayland: bool) -> (r: Option<SettingsPage>)
    ensures
        ({
            let plugin = get_text(*metadata, "KPlugin"@);
            let name = match plugin {
                Some(p) => localized_of(p, "Name"@, lang@),
                None => None,
            };
            &&& (r is None <==> (name is None || name.unwrap().len() == 0 || !shows_on(*metadata, wayland)))
            &&& (r matches Some(page) ==> {
                &&& page.id == id
                &&& page.name@ == name.unwrap()
                &&& opt_view_str(page.description) == non_empty(localized_of(plugin.unwrap(), "Description"@, lang@))
                &&& opt_view_str(page.icon) == non_empty(text_of(plugin.unwrap(), "Icon"@))
                &&& keywords_of(
                    page.keywords@,
                    text_of(*metadata, "X-KDE-Keywords"@),
                    localized_only_of(*metadata, "X-KDE-Keywords"@, lang@),
                )
            })
        }),
{
    let plugin = match get_text_exec(metadata, "KPlugin") {
        Some(p) => p,
        None => return None,
    };
    let name = match localized_exec(plugin, "Name", lang) {
        Some(n) => n,
        None => return None,
    };
    if name.as_str().is_empty() || !shows_on_exec(metadata, wayland) {
        return None;
    }
    let ghost a = text_of(*metadata, "X-KDE-Keywords"@);
    let ghost b = localized_only_of(*metadata, "X-KDE-Keywords"@, lang@);
    let english = text_exec(metadata, "X-KDE-Keywords");
    let translated = localized_only_exec(metadata, "X-KDE-Keywords", lang);
    let mut keywords: Vec<String> = Vec::new();
    add_keywords(&mut keywords, &english, Ghost(a), Ghost(b), Ghost(true));
    add_keywords(&mut keywords, &translated, Ghost(a), Ghost(b), Ghost(false));
    let description = match localized_exec(plugin, "Description", lang) {
        Some(d) => if d.as_str().is_empty() {
            None
        } else {
            Some(d)
        },
        None => None,
    };
    let icon = match text_exec(plugin, "Icon") {
        Some(i) => if i.as_str().is_empty() {
            None
        } else {
            Some(i)
        },
        None => None,
    };
    Some(SettingsPage { id, name, description, icon, keywords })
}

} // verus!
