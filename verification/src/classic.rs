//! The standalone launcher: applications read from `.desktop` files and
//! ranked by name and launch history alone.

use crate::db::UsageStats;
use crate::desktop::join_spaced;
use crate::rank::{match_points, match_score, usage_points, usage_score_at};
use crate::ranking::{key_views, select_top, top_ranked};
use crate::text::{
    ascii_lower, ascii_lower_char, ascii_lower_exec, chars_eq, chars_of, ends_with_exec, is_white,
    lowercase, split_words, starts_with_exec, string_of, sub_chars, to_lower, trim, trim_chars,
    trim_end, trim_start, words_from,
};
use vstd::prelude::*;

verus! {

/// A visible application.
#[derive(Clone, Debug)]
pub struct DesktopEntry {
    pub name: String,
    pub exec_line: String,
    pub icon: Option<String>,
    /// Path of the `.desktop` file; also its history key.
    pub path: String,
}

impl DesktopEntry {
    /// A field-by-field copy.
    pub fn copy(&self) -> (r: Self)
        ensures
            r == *self,
    {
        DesktopEntry {
            name: self.name.clone(),
            exec_line: self.exec_line.clone(),
            icon: match &self.icon {
                Some(i) => Some(i.clone()),
                None => None,
            },
            path: self.path.clone(),
        }
    }
}

// ---------------------------------------------------------------------------
// Desktop files
// ---------------------------------------------------------------------------

/// Field codes removed from an `Exec` value: `%%` stands for `%`; `%u`,
/// `%U`, `%f`, `%F`, `%i`, `%c`, `%k` vanish; any other `%` before a
/// character vanishes (the character stays); a final `%` stays.
pub open spec fn strip_codes(s: Seq<char>) -> Seq<char>
    decreases s.len(),
{
    if s.len() == 0 {
        seq![]
    } else if s[0] == '%' {
        if s.len() == 1 {
            seq!['%']
        } else if s[1] == '%' {
            seq!['%'] + strip_codes(s.subrange(2, s.len() as int))
        } else if s[1] == 'u' || s[1] == 'U' || s[1] == 'f' || s[1] == 'F' || s[1] == 'i' || s[1]
            == 'c' || s[1] == 'k' {
            strip_codes(s.subrange(2, s.len() as int))
        } else {
            strip_codes(s.subrange(1, s.len() as int))
        }
    } else {
        seq![s[0]] + strip_codes(s.subrange(1, s.len() as int))
    }
}

/// An `Exec` value without field codes, its words joined by single spaces.
pub open spec fn cleaned_exec(exec: Seq<char>) -> Seq<char> {
    join_spaced(words_from(strip_codes(exec), 0))
}

fn join_words(w: &Vec<Vec<char>>, Ghost(ws): Ghost<Seq<Seq<char>>>) -> (r: Vec<char>)
    requires
        w@.len() == ws.len(),
        forall|m: int| 0 <= m < w@.len() ==> (#[trigger] w@[m])@ == ws[m],
    ensures
        r@ == join_spaced(ws),
{
    let mut out: Vec<char> = Vec::new();
    let mut k: usize = 0;
    while k < w.len()
        invariant
            k <= w@.len(),
            w@.len() == ws.len(),
            forall|m: int| 0 <= m < w@.len() ==> (#[trigger] w@[m])@ == ws[m],
            out@ == join_spaced(ws.subrange(0, k as int)),
        decreases w@.len() - k,
    {
        let ghost parts = ws.subrange(0, k as int);
        assert(ws.subrange(0, k + 1).drop_last() =~= parts);
        if k > 0 {
            out.push(' ');
        } else {
            assert(out@ =~= seq![]);
        }
        let ghost base = out@;
        let word = &w[k];
        let mut j: usize = 0;
        while j < word.len()
            invariant
                j <= word@.len(),
                out@ == base + word@.subrange(0, j as int),
            decreases word@.len() - j,
        {
            out.push(word[j]);
            j = j + 1;
            assert(out@ =~= base + word@.subrange(0, j as int));
        }
        assert(word@.subrange(0, word@.len() as int) =~= word@);
        proof {
            let np = ws.subrange(0, k + 1);
            if k == 0 {
                assert(out@ =~= np[0]);
            } else {
                assert(out@ =~= join_spaced(parts) + seq![' '] + np.last());
            }
        }
        k = k + 1;
    }
    assert(ws.subrange(0, ws.len() as int) =~= ws);
    out
}

/// Remove the field codes (`%u`, `%F`, ...) from an `Exec` value and
/// normalize its spacing.
pub fn clean_exec(exec: &str) -> (r: String)
    ensures
        r@ == cleaned_exec(exec@),
{
    let cs = chars_of(exec);
    let mut out: Vec<char> = Vec::new();
    let mut i: usize = 0;
    assert(cs@.subrange(0, cs@.len() as int) =~= cs@);
    while i < cs.len()
        invariant
            i <= cs@.len(),
            strip_codes(cs@) == out@ + strip_codes(cs@.subrange(i as int, cs@.len() as int)),
        decreases cs@.len() - i,
    {
        let ghost rest = cs@.subrange(i as int, cs@.len() as int);
        let ghost before = out@;
        let c = cs[i];
        if c == '%' {
            if i + 1 == cs.len() {
                out.push('%');
                assert(rest =~= seq!['%']);
                assert(cs@.subrange(i + 1, cs@.len() as int) =~= Seq::<char>::empty());
                i = i + 1;
            } else {
                let d = cs[i + 1];
                assert(rest.subrange(2, rest.len() as int) =~= cs@.subrange(i + 2, cs@.len() as int));
                assert(rest.subrange(1, rest.len() as int) =~= cs@.subrange(i + 1, cs@.len() as int));
                if d == '%' {
                    out.push('%');
                    assert(out@ + strip_codes(cs@.subrange(i + 2, cs@.len() as int)) =~= before
                        + (seq!['%'] + strip_codes(rest.subrange(2, rest.len() as int))));
                    i = i + 2;
                } else if d == 'u' || d == 'U' || d == 'f' || d == 'F' || d == 'i' || d == 'c' || d
                    == 'k' {
                    i = i + 2;
                } else {
                    i = i + 1;
                }
            }
        } else {
            out.push(c);
            assert(rest.subrange(1, rest.len() as int) =~= cs@.subrange(i + 1, cs@.len() as int));
            assert(out@ + strip_codes(cs@.subrange(i + 1, cs@.len() as int)) =~= before + (seq![c]
                + strip_codes(rest.subrange(1, rest.len() as int))));
            i = i + 1;
        }
    }
    assert(cs@.subrange(cs@.len() as int, cs@.len() as int) =~= Seq::<char>::empty());
    let w = split_words(&out);
    string_of(&join_words(&w, Ghost(words_from(out@, 0))))
}

/// A desktop-file boolean: `true` in any ASCII case, surrounding whitespace
/// ignored.
pub open spec fn desktop_bool(value: Seq<char>) -> bool {
    ascii_lower(trim(value)) == "true"@
}

pub fn parse_bool(value: &str) -> (r: bool)
    ensures
        r == desktop_bool(value@),
{
    let t = ascii_lower_exec(&trim_chars(&chars_of(value)));
    chars_eq(&t, &chars_of("true"))
}

/// What has been read of a desktop file so far.
pub struct Scan {
    pub in_entry: bool,
    pub name: Option<Seq<char>>,
    pub exec_line: Option<Seq<char>>,
    pub icon: Option<Seq<char>>,
    pub kind: Option<Seq<char>>,
    pub no_display: bool,
    pub hidden: bool,
}

pub open spec fn empty_scan() -> Scan {
    Scan {
        in_entry: false,
        name: None,
        exec_line: None,
        icon: None,
        kind: None,
        no_display: false,
        hidden: false,
    }
}

/// Position of the first `c` in `s`, if any.
pub open spec fn first_char(s: Seq<char>, c: char, i: int) -> Option<int>
    decreases s.len() - i,
{
    if i < 0 || i >= s.len() {
        None
    } else if s[i] == c {
        Some(i)
    } else {
        first_char(s, c, i + 1)
    }
}

/// One line read: blank lines and comments are skipped; a `[section]` header
/// opens (`[Desktop Entry]`) or closes the entry section; inside it,
/// `Key=value` lines set the keys the launcher reads.
pub open spec fn scan_line(st: Scan, raw: Seq<char>) -> Scan {
    let line = trim(raw);
    if line.len() == 0 || line[0] == '#' {
        st
    } else if line[0] == '[' && line.last() == ']' {
        Scan { in_entry: line == "[Desktop Entry]"@, ..st }
    } else if !st.in_entry {
        st
    } else {
        match first_char(line, '=', 0) {
            None => st,
            Some(i) => {
                let key = line.subrange(0, i);
                let value = line.subrange(i + 1, line.len() as int);
                if key == "Name"@ {
                    Scan { name: Some(trim(value)), ..st }
                } else if key == "Exec"@ {
                    Scan { exec_line: Some(cleaned_exec(value)), ..st }
                } else if key == "Icon"@ {
                    Scan { icon: Some(trim(value)), ..st }
                } else if key == "Type"@ {
                    Scan { kind: Some(trim(value)), ..st }
                } else if key == "NoDisplay"@ {
                    Scan { no_display: desktop_bool(value), ..st }
                } else if key == "Hidden"@ {
                    Scan { hidden: desktop_bool(value), ..st }
                } else {
                    st
                }
            },
        }
    }
}

/// The lines of `s` (split at `\n`).
pub open spec fn lines_from(s: Seq<char>, i: int) -> Seq<Seq<char>>
    decreases s.len() - i,
{
    if i < 0 || i >= s.len() {
        seq![]
    } else {
        match first_char(s, '\n', i) {
            None => seq![s.subrange(i, s.len() as int)],
            Some(j) => if i <= j < s.len() {
                seq![s.subrange(i, j)] + lines_from(s, j + 1)
            } else {
                seq![]
            },
        }
    }
}

pub open spec fn scan_lines(st: Scan, lines: Seq<Seq<char>>) -> Scan
    decreases lines.len(),
{
    if lines.len() == 0 {
        st
    } else {
        scan_line(scan_lines(st, lines.drop_last()), lines.last())
    }
}

/// The application a desktop file describes: a visible `Application` entry
/// with a non-empty name and command.
pub open spec fn entry_of(content: Seq<char>) -> Option<(Seq<char>, Seq<char>, Option<Seq<char>>)> {
    let st = scan_lines(empty_scan(), lines_from(content, 0));
    if st.kind != Some("Application"@) || st.no_display || st.hidden {
        None
    } else {
        match (st.name, st.exec_line) {
            (Some(n), Some(e)) => if n.len() > 0 && e.len() > 0 {
                Some((n, e, st.icon))
            } else {
                None
            },
            _ => None,
        }
    }
}

/// Exec-side state of the scan.
struct ScanState {
    in_entry: bool,
    name: Option<Vec<char>>,
    exec_line: Option<String>,
    icon: Option<Vec<char>>,
    kind: Option<Vec<char>>,
    no_display: bool,
    hidden: bool,
}

spec fn opt_chars(o: Option<Vec<char>>) -> Option<Seq<char>> {
    match o {
        Some(v) => Some(v@),
        None => None,
    }
}

pub open spec fn opt_string(o: Option<String>) -> Option<Seq<char>> {
    match o {
        Some(v) => Some(v@),
        None => None,
    }
}

spec fn state_view(s: ScanState) -> Scan {
    Scan {
        in_entry: s.in_entry,
        name: opt_chars(s.name),
        exec_line: opt_string(s.exec_line),
        icon: opt_chars(s.icon),
        kind: opt_chars(s.kind),
        no_display: s.no_display,
        hidden: s.hidden,
    }
}

fn find_char(s: &[char], c: char, start: usize) -> (r: Option<usize>)
    requires
        start <= s@.len(),
    ensures
        match r {
            Some(i) => first_char(s@, c, start as int) == Some(i as int) && start <= i < s@.len(),
            None => first_char(s@, c, start as int) is None,
        },
{
    let mut i = start;
    while i < s.len()
        invariant
            start <= i <= s@.len(),
            first_char(s@, c, start as int) == first_char(s@, c, i as int),
        decreases s@.len() - i,
    {
        if s[i] == c {
            return Some(i);
        }
        i = i + 1;
    }
    None
}

fn scan_line_exec(st: &mut ScanState, raw: &[char])
    ensures
        state_view(*final(st)) == scan_line(state_view(*old(st)), raw@),
{
    let line = trim_chars(raw);
    let n = line.len();
    if n == 0 || line[0] == '#' {
        return;
    }
    if line[0] == '[' && line[n - 1] == ']' {
        st.in_entry = chars_eq(&line, &chars_of("[Desktop Entry]"));
        return;
    }
    if !st.in_entry {
        return;
    }
    let i = match find_char(&line, '=', 0) {
        Some(i) => i,
        None => return,
    };
    let key = sub_chars(&line, 0, i);
    let value = sub_chars(&line, i + 1, n);
    if chars_eq(&key, &chars_of("Name")) {
        st.name = Some(trim_chars(&value));
    } else if chars_eq(&key, &chars_of("Exec")) {
        st.exec_line = Some(clean_exec(string_of(&value).as_str()));
    } else if chars_eq(&key, &chars_of("Icon")) {
        st.icon = Some(trim_chars(&value));
    } else if chars_eq(&key, &chars_of("Type")) {
        st.kind = Some(trim_chars(&value));
    } else if chars_eq(&key, &chars_of("NoDisplay")) {
        st.no_display = parse_bool(string_of(&value).as_str());
    } else if chars_eq(&key, &chars_of("Hidden")) {
        st.hidden = parse_bool(string_of(&value).as_str());
    }
}

/// The application the desktop file `content`, read from `path`, describes.
pub fn parse_desktop_file(content: &str, path: &str) -> (r: Option<DesktopEntry>)
    ensures
        match r {
            Some(e) => entry_of(content@) == Some((e.name@, e.exec_line@, opt_string(e.icon))) && e.path@
                == path@,
            None => entry_of(content@) is None,
        },
{
    let cs = chars_of(content);
    let mut st = ScanState {
        in_entry: false,
        name: None,
        exec_line: None,
        icon: None,
        kind: None,
        no_display: false,
        hidden: false,
    };
    let ghost all = lines_from(cs@, 0);
    let ghost mut done: Seq<Seq<char>> = seq![];
    let mut i: usize = 0;
    while i < cs.len()
        invariant
            i <= cs@.len(),
            all == done + lines_from(cs@, i as int),
            state_view(st) == scan_lines(empty_scan(), done),
        decreases cs@.len() - i,
    {
        let (end, next) = match find_char(&cs, '\n', i) {
            Some(j) => (j, j + 1),
            None => (cs.len(), cs.len()),
        };
        let line = sub_chars(&cs, i, end);
        proof {
            let rest = lines_from(cs@, i as int);
            assert(rest == seq![line@] + lines_from(cs@, next as int));
            assert(all =~= done.push(line@) + lines_from(cs@, next as int));
            assert(done.push(line@).drop_last() =~= done);
        }
        scan_line_exec(&mut st, &line);
        proof {
            done = done.push(line@);
        }
        i = next;
    }
    assert(all =~= done);
    let is_app = match &st.kind {
        Some(k) => chars_eq(k, &chars_of("Application")),
        None => false,
    };
    if !is_app || st.no_display || st.hidden {
        return None;
    }
    let name = match st.name {
        Some(n) => n,
        None => return None,
    };
    let exec_line = match st.exec_line {
        Some(e) => e,
        None => return None,
    };
    if name.len() == 0 || exec_line.as_str().is_empty() {
        return None;
    }
    let icon = match st.icon {
        Some(v) => Some(string_of(&v)),
        None => None,
    };
    Some(DesktopEntry { name: string_of(&name), exec_line, icon, path: path.to_owned() })
}

// ---------------------------------------------------------------------------
// Starting an app
// ---------------------------------------------------------------------------

/// The words `shell_words::split` makes of a command line (POSIX shell
/// quoting rules); `None` when a quote is not closed.
pub uninterp spec fn shell_split(line: Seq<char>) -> Option<Seq<Seq<char>>>;

/// Calls `shell_words::split`; the contract names the result [`shell_split`]
/// of the line, its error (an unclosed quote) as `None`.
#[verifier::external_body]
fn split_command_line(line: &str) -> (r: Option<Vec<String>>)
    ensures
        match r {
            Some(ws) => shell_split(line@) matches Some(s) && s.len() == ws@.len() && forall|i: int|
                0 <= i < ws@.len() ==> (#[trigger] ws@[i])@ == s[i],
            None => shell_split(line@) is None,
        },
{
    shell_words::split(line).ok()
}

/// The program and arguments an app's command line stands for: its
/// shell-style words, which must include a program.
pub fn command_argv(app: &DesktopEntry) -> (r: Result<Vec<String>, String>)
    ensures
        match shell_split(app.exec_line@) {
            None => r matches Err(e) && e@ == "missing closing quote"@,
            Some(s) => if s.len() == 0 {
                r matches Err(e) && e@ == "desktop entry has an empty Exec command"@
            } else {
                r matches Ok(ws) && ws@.len() == s.len() && forall|i: int|
                    0 <= i < ws@.len() ==> (#[trigger] ws@[i])@ == s[i]
            },
        },
{
    match split_command_line(app.exec_line.as_str()) {
        None => Err("missing closing quote".to_owned()),
        Some(ws) => if ws.len() == 0 {
            Err("desktop entry has an empty Exec command".to_owned())
        } else {
            Ok(ws)
        },
    }
}

// ---------------------------------------------------------------------------
// Ranking
// ---------------------------------------------------------------------------

/// An application with its score for a query.
#[derive(Clone, Debug)]
pub struct RankedApp {
    pub app: DesktopEntry,
    pub score: i64,
}

/// The apps that match the query `q`, with their scores: name match plus the
/// usage bonus of their stats (`stats[i]` belongs to `apps[i]`) at time `now`.
pub open spec fn candidates(
    apps: Seq<DesktopEntry>,
    stats: Seq<UsageStats>,
    q: Seq<char>,
    now: int,
) -> Seq<RankedApp>
    decreases apps.len(),
{
    if apps.len() == 0 {
        seq![]
    } else {
        let head = candidates(apps.drop_last(), stats.drop_last(), q, now);
        match match_points(apps.last().name@, q) {
            Some(base) => head.push(
                RankedApp {
                    app: apps.last(),
                    score: (base + usage_points(stats.last(), now)) as i64,
                },
            ),
            None => head,
        }
    }
}

/// Ranking keys: score and lowercased name.
pub open spec fn app_keys(c: Seq<RankedApp>) -> Seq<(i64, Seq<char>)> {
    Seq::new(c.len(), |i: int| (c[i].score, lowercase(c[i].app.name@)))
}

/// Rank the apps for `query` (trimmed and lowercased) by name match and
/// launch history (`stats[i]` belongs to `apps[i]`), at time `now`: the best
/// twelve, highest score first, equal scores by case-insensitive name.
pub fn rank_apps(apps: &[DesktopEntry], query: &str, stats: &[UsageStats], now: i64) -> (r: Vec<
    RankedApp,
>)
    requires
        stats@.len() == apps@.len(),
    ensures
        ({
            let c = candidates(apps@, stats@, lowercase(trim(query@)), now as int);
            &&& r@.len() == (if c.len() < 12 {
                c.len()
            } else {
                12
            })
            &&& exists|p: Seq<int>|
                top_ranked(app_keys(c), p, r@.len() as int) && forall|k: int|
                    0 <= k < r@.len() ==> #[trigger] r@[k] == c[p[k]]
        }),
{
    let normalized = to_lower(string_of(&trim_chars(&chars_of(query))).as_str());
    let ghost q = lowercase(trim(query@));
    let mut ranked: Vec<RankedApp> = Vec::new();
    let mut keys: Vec<(i64, Vec<char>)> = Vec::new();
    let mut i: usize = 0;
    while i < apps.len()
        invariant
            normalized@ == q,
            stats@.len() == apps@.len(),
            i <= apps@.len(),
            ranked@ == candidates(apps@.subrange(0, i as int), stats@.subrange(0, i as int), q, now as int),
            keys@.len() == ranked@.len(),
            forall|t: int|
                0 <= t < keys@.len() ==> ((#[trigger] keys@[t]).0, keys@[t].1@) == app_keys(
                    ranked@,
                )[t],
        decreases apps@.len() - i,
    {
        assert(apps@.subrange(0, i + 1).drop_last() =~= apps@.subrange(0, i as int));
        assert(stats@.subrange(0, i + 1).drop_last() =~= stats@.subrange(0, i as int));
        let app = &apps[i];
        match match_score(app.name.as_str(), normalized.as_str()) {
            Some(base) => {
                let usage = usage_score_at(&stats[i], now);
                let score = (base as i128 + usage as i128) as i64;
                ranked.push(RankedApp { app: app.copy(), score });
                keys.push((score, chars_of(to_lower(app.name.as_str()).as_str())));
            },
            None => {},
        }
        i = i + 1;
    }
    assert(apps@.subrange(0, apps@.len() as int) =~= apps@);
    assert(stats@.subrange(0, stats@.len() as int) =~= stats@);
    assert(key_views(keys@) =~= app_keys(ranked@));
    select_top(ranked, keys, 12)
}

/// Sorting keys of apps: all equal scores, and the lowercased name.
pub open spec fn name_keys(apps: Seq<DesktopEntry>) -> Seq<(i64, Seq<char>)> {
    Seq::new(apps.len(), |i: int| (0i64, lowercase(apps[i].name@)))
}

/// The apps ordered by case-insensitive name; apps whose names differ only
/// in case keep their order.
pub fn sort_by_name(apps: Vec<DesktopEntry>) -> (r: Vec<DesktopEntry>)
    ensures
        r@.len() == apps@.len(),
        exists|p: Seq<int>|
            top_ranked(name_keys(apps@), p, r@.len() as int) && forall|k: int|
                0 <= k < r@.len() ==> #[trigger] r@[k] == apps@[p[k]],
{
    let mut keys: Vec<(i64, Vec<char>)> = Vec::new();
    let mut i: usize = 0;
    while i < apps.len()
        invariant
            i <= apps@.len(),
            keys@.len() == i,
            forall|t: int|
                0 <= t < i ==> ((#[trigger] keys@[t]).0, keys@[t].1@) == name_keys(apps@)[t],
        decreases apps@.len() - i,
    {
        keys.push((0, chars_of(to_lower(apps[i].name.as_str()).as_str())));
        i = i + 1;
    }
    assert(key_views(keys@) =~= name_keys(apps@));
    let n = apps.len();
    select_top(apps, keys, n)
}

proof fn lemma_first_char_at(s: Seq<char>, c: char, i: int, j: int)
    requires
        0 <= i <= j < s.len(),
        s[j] == c,
        forall|k: int| i <= k < j ==> s[k] != c,
    ensures
        first_char(s, c, i) == Some(j),
    decreases j - i,
{
    if i < j {
        lemma_first_char_at(s, c, i + 1, j);
    }
}

proof fn lemma_first_char_none(s: Seq<char>, c: char, i: int)
    requires
        0 <= i,
        forall|k: int| i <= k < s.len() ==> s[k] != c,
    ensures
        first_char(s, c, i) is None,
    decreases s.len() - i,
{
    if i < s.len() {
        lemma_first_char_none(s, c, i + 1);
    }
}

/// A last line `line` (with at most a final newline after it) appended to
/// text that ends with a newline adds exactly that line.
proof fn lemma_lines_append(pre: Seq<char>, line: Seq<char>, post: Seq<char>, i: int)
    requires
        pre.len() > 0,
        pre.last() == '\n',
        line.len() > 0,
        forall|k: int| 0 <= k < line.len() ==> line[k] != '\n',
        post == Seq::<char>::empty() || post == seq!['\n'],
        0 <= i < pre.len(),
    ensures
        lines_from(pre + line + post, i) == lines_from(pre, i) + seq![line],
    decreases pre.len() - i,
{
    let s = pre + line + post;
    let n = pre.len() as int;
    assert forall|k: int| 0 <= k < pre.len() implies s[k] == pre[k] by {}
    lemma_first_char_some_prefix(pre, s, '\n', i, n - 1);
    let j = first_char(pre, '\n', i)->0;
    assert(s.subrange(i, j) =~= pre.subrange(i, j));
    if j < n - 1 {
        lemma_lines_append(pre, line, post, j + 1);
        assert(lines_from(s, i) == seq![s.subrange(i, j)] + lines_from(s, j + 1));
        assert(lines_from(pre, i) == seq![pre.subrange(i, j)] + lines_from(pre, j + 1));
        assert(seq![pre.subrange(i, j)] + (lines_from(pre, j + 1) + seq![line]) =~= (seq![
            pre.subrange(i, j),
        ] + lines_from(pre, j + 1)) + seq![line]);
    } else {
        lemma_lines_tail(pre, line, post);
        assert(lines_from(s, i) == seq![s.subrange(i, j)] + lines_from(s, j + 1));
        assert(lines_from(pre, i) == seq![pre.subrange(i, j)] + lines_from(pre, j + 1));
        assert(seq![pre.subrange(i, j)] + Seq::<Seq<char>>::empty() =~= seq![pre.subrange(i, j)]);
    }
}

/// `first_char` finds the same position in text that extends `u`, once `u`
/// holds `c` at `p` or before.
proof fn lemma_first_char_some_prefix(u: Seq<char>, s: Seq<char>, c: char, i: int, p: int)
    requires
        0 <= i <= p < u.len() <= s.len(),
        u[p] == c,
        forall|k: int| 0 <= k < u.len() ==> s[k] == u[k],
    ensures
        first_char(u, c, i) == first_char(s, c, i),
        first_char(u, c, i) matches Some(j) && i <= j <= p && u[j] == c,
    decreases p - i,
{
    if u[i] != c {
        lemma_first_char_some_prefix(u, s, c, i + 1, p);
    }
}

proof fn lemma_lines_tail(pre: Seq<char>, line: Seq<char>, post: Seq<char>)
    requires
        pre.len() > 0,
        line.len() > 0,
        forall|k: int| 0 <= k < line.len() ==> line[k] != '\n',
        post == Seq::<char>::empty() || post == seq!['\n'],
    ensures
        lines_from(pre + line + post, pre.len() as int) == seq![line],
        lines_from(pre, pre.len() as int) == Seq::<Seq<char>>::empty(),
{
    let s = pre + line + post;
    let n = pre.len() as int;
    let e = n + line.len();
    assert(s.subrange(n, e) =~= line);
    if post.len() == 0 {
        assert forall|k: int| n <= k < s.len() implies s[k] != '\n' by {
            assert(s[k] == line[k - n]);
        }
        lemma_first_char_none(s, '\n', n);
        assert(s.subrange(n, s.len() as int) =~= line);
    } else {
        assert forall|k: int| n <= k < e implies s[k] != '\n' by {
            assert(s[k] == line[k - n]);
        }
        assert(s[e] == '\n');
        lemma_first_char_at(s, '\n', n, e);
        assert(lines_from(s, e + 1) == Seq::<Seq<char>>::empty());
        assert(seq![line] + Seq::<Seq<char>>::empty() =~= seq![line]);
    }
}

/// A desktop file whose `[Desktop Entry]` section ends with the line
/// `Hidden=true` or `NoDisplay=true` (`true` in any ASCII case) describes
/// no application to show, whatever came before it in the file.
pub proof fn lemma_hidden_entries_are_not_shown(
    pre: Seq<char>,
    key: Seq<char>,
    v: Seq<char>,
    post: Seq<char>,
)
    requires
        pre.len() > 0,
        pre.last() == '\n',
        scan_lines(empty_scan(), lines_from(pre, 0)).in_entry,
        key == "Hidden"@ || key == "NoDisplay"@,
        ascii_lower(v) == "true"@,
        post == Seq::<char>::empty() || post == seq!['\n'],
    ensures
        entry_of(pre + key + "="@ + v + post) is None,
{
    reveal_strlit("=");
    reveal_strlit("true");
    reveal_strlit("Hidden");
    reveal_strlit("Name");
    reveal_strlit("Exec");
    reveal_strlit("Icon");
    reveal_strlit("Type");
    reveal_strlit("NoDisplay");
    reveal_strlit("[Desktop Entry]");
    let kl = key.len() as int;
    let line = key + "="@ + v;
    assert(pre + key + "="@ + v + post =~= pre + line + post);
    assert(ascii_lower(v).len() == v.len());
    assert(v.len() == 4);
    assert forall|k: int| 0 <= k < 4 implies ascii_lower_char(#[trigger] v[k]) == "true"@[k] by {
        assert(ascii_lower(v)[k] == ascii_lower_char(v[k]));
    }
    assert(v[0] == 't' || v[0] == 'T');
    assert(v[1] == 'r' || v[1] == 'R');
    assert(v[2] == 'u' || v[2] == 'U');
    assert(v[3] == 'e' || v[3] == 'E');
    assert forall|k: int| 0 <= k < line.len() implies line[k] != '\n' by {
        if k > kl {
            assert(line[k] == v[k - kl - 1]);
        }
    }
    lemma_lines_append(pre, line, post, 0);
    let ls = lines_from(pre, 0);
    assert((ls + seq![line]).drop_last() =~= ls);
    let st = scan_lines(empty_scan(), ls);
    // The line is its own trim.
    reveal(is_white);
    assert(trim_start(line) == line);
    assert(line.last() == v[3]);
    assert(trim_end(line) == line);
    assert(trim(line) == line);
    lemma_first_char_at(line, '=', 0, kl);
    assert(line.subrange(0, kl) =~= key);
    assert(line.subrange(kl + 1, line.len() as int) =~= v);
    assert(trim_start(v) == v);
    assert(trim_end(v) == v);
    assert(trim(v) == v);
    assert(line[0] != '[');
    assert(scan_line(st, line).hidden || scan_line(st, line).no_display);
    assert(scan_lines(empty_scan(), ls + seq![line]).hidden || scan_lines(
        empty_scan(),
        ls + seq![line],
    ).no_display);
}

} // verus!
