//! How an application is started: directly from its command line, or through
//! the desktop's launcher, and under which systemd unit name, so each app
//! runs in a scope of its own.

use crate::desktop::DesktopEntry;
use crate::direct::{opt_view, utf8_bytes, utf8_encode};
use crate::text::{cat, char_from_ascii, chars_of, ends_with, ends_with_exec, string_of, sub_chars};
use vstd::prelude::*;

verus! {

/// The way an application is started.
#[derive(Clone, Copy, Debug, PartialEq, Eq, Structural)]
pub enum LaunchPlan {
    /// Run its `Exec` command line directly.
    Exec,
    /// Hand it to the desktop's launcher (GIO), which knows about terminals
    /// and D-Bus activation.
    Desktop,
}

/// A plain command line runs directly; terminal and D-Bus activatable apps,
/// and apps without a command line, go through the desktop's launcher.
pub open spec fn plan_of(app: DesktopEntry) -> LaunchPlan {
    if app.exec_line is Some && !app.terminal && !app.dbus_activatable {
        LaunchPlan::Exec
    } else {
        LaunchPlan::Desktop
    }
}

pub fn launch_plan(app: &DesktopEntry) -> (r: LaunchPlan)
    ensures
        r == plan_of(*app),
{
    if app.exec_line.is_some() && !app.terminal && !app.dbus_activatable {
        LaunchPlan::Exec
    } else {
        LaunchPlan::Desktop
    }
}

/// When the desktop's launcher cannot load the app: the reason it cannot be
/// started at all, or `None` when its command line can run directly.
pub open spec fn fallback_problem(app: DesktopEntry) -> Option<&'static str> {
    if app.dbus_activatable && app.exec_line is None {
        Some("D-Bus activatable desktop entry could not be loaded by GIO")
    } else if app.terminal {
        Some("terminal desktop entries require GIO launch support")
    } else {
        None
    }
}

pub fn fallback_check(app: &DesktopEntry) -> (r: Option<&'static str>)
    ensures
        r == fallback_problem(*app),
{
    if app.dbus_activatable && app.exec_line.is_none() {
        Some("D-Bus activatable desktop entry could not be loaded by GIO")
    } else if app.terminal {
        Some("terminal desktop entries require GIO launch support")
    } else {
        None
    }
}

/// The file name of `path` without its extension (`Path::file_stem`).
pub uninterp spec fn file_stem_of(path: Seq<char>) -> Option<Seq<char>>;

/// Calls `std::path::Path::file_stem` (as text). The contract names the
/// result [`file_stem_of`] of the path.
#[verifier::external_body]
fn file_stem(path: &str) -> (r: Option<String>)
    ensures
        opt_view(r) == file_stem_of(path@),
{
    std::path::Path::new(path).file_stem().map(|stem| stem.to_string_lossy().into_owned())
}

/// The id an app's scope is named after: its desktop file's name without the
/// extension, or `app`.
pub fn desktop_file_id(path: &str) -> (r: String)
    ensures
        r@ == match file_stem_of(path@) {
            Some(s) => s,
            None => "app"@,
        },
{
    match file_stem(path) {
        Some(s) => s,
        None => "app".to_owned(),
    }
}

/// A lowercase hexadecimal digit.
pub open spec fn hex_lower(d: u32) -> char {
    if d < 10 {
        ((48 + d) as u32) as char
    } else {
        ((87 + d) as u32) as char
    }
}

/// Characters kept in a unit name: ASCII letters and digits, `:`, `_`, and
/// `.` except at the very start.
pub open spec fn unit_safe(c: char, first: bool) -> bool {
    ('a' <= c <= 'z') || ('A' <= c <= 'Z') || ('0' <= c <= '9') || c == ':' || c == '_' || (c
        == '.' && !first)
}

/// `\xNN` for each byte.
pub open spec fn hex_escapes(bs: Seq<u8>) -> Seq<char>
    decreases bs.len(),
{
    if bs.len() == 0 {
        seq![]
    } else {
        hex_escapes(bs.drop_last()) + seq![
            '\\',
            'x',
            hex_lower((bs.last() / 16) as u32),
            hex_lower((bs.last() % 16) as u32),
        ]
    }
}

/// `s` escaped for a systemd unit name, byte by byte of its UTF-8 form.
pub open spec fn unit_escaped(s: Seq<char>) -> Seq<char>
    decreases s.len(),
{
    if s.len() == 0 {
        seq![]
    } else {
        let c = s.last();
        unit_escaped(s.drop_last()) + if unit_safe(c, s.len() == 1) {
            seq![c]
        } else {
            hex_escapes(utf8_bytes(c))
        }
    }
}

fn hex_lower_exec(d: u32) -> (c: char)
    requires
        d < 16,
    ensures
        c == hex_lower(d),
{
    if d < 10 {
        char_from_ascii(48 + d)
    } else {
        char_from_ascii(87 + d)
    }
}

/// The transient unit an app runs in:
/// `app-nursearch-<escaped app id>-<unique>.<suffix>`.
pub fn unit_name(app_id: &str, unique: &str, suffix: &str) -> (r: String)
    ensures
        r@ == "app-nursearch-"@ + unit_escaped(app_id@) + "-"@ + unique@ + "."@ + suffix@,
{
    let cs = chars_of(app_id);
    let mut out: Vec<char> = Vec::new();
    let mut i: usize = 0;
    while i < cs.len()
        invariant
            i <= cs@.len(),
            out@ == unit_escaped(cs@.subrange(0, i as int)),
        decreases cs@.len() - i,
    {
        let c = cs[i];
        assert(cs@.subrange(0, i + 1).drop_last() =~= cs@.subrange(0, i as int));
        let keep = ('a' <= c && c <= 'z') || ('A' <= c && c <= 'Z') || ('0' <= c && c <= '9')
            || c == ':' || c == '_' || (c == '.' && i > 0);
        if keep {
            out.push(c);
        } else {
            let bytes = utf8_encode(c);
            let ghost base = out@;
            let mut k: usize = 0;
            while k < bytes.len()
                invariant
                    k <= bytes@.len(),
                    out@ == base + hex_escapes(bytes@.subrange(0, k as int)),
                decreases bytes@.len() - k,
            {
                assert(bytes@.subrange(0, k + 1).drop_last() =~= bytes@.subrange(0, k as int));
                let b = bytes[k];
                out.push('\\');
                out.push('x');
                out.push(hex_lower_exec((b / 16) as u32));
                out.push(hex_lower_exec((b % 16) as u32));
                k = k + 1;
                assert(out@ =~= base + hex_escapes(bytes@.subrange(0, k as int)));
            }
            assert(bytes@.subrange(0, bytes@.len() as int) =~= bytes@);
        }
        i = i + 1;
    }
    assert(cs@.subrange(0, cs@.len() as int) =~= cs@);
    let escaped = string_of(&out);
    let a = cat("app-nursearch-", escaped.as_str());
    let b = cat(a.as_str(), "-");
    let c = cat(b.as_str(), unique);
    let d = cat(c.as_str(), ".");
    cat(d.as_str(), suffix)
}

/// Lowercase hexadecimal digits of `n`, without leading zeros (`{:x}`).
pub open spec fn hex_digits(n: nat) -> Seq<char>
    decreases n,
{
    if n < 16 {
        seq![hex_lower(n as u32)]
    } else {
        hex_digits(n / 16).push(hex_lower((n % 16) as u32))
    }
}

fn push_hex(n: u32, out: &mut Vec<char>)
    ensures
        final(out)@ == old(out)@ + hex_digits(n as nat),
    decreases n,
{
    if n < 16 {
        out.push(hex_lower_exec(n));
        assert(hex_digits(n as nat) =~= seq![hex_lower(n)]);
    } else {
        push_hex(n / 16, out);
        out.push(hex_lower_exec(n % 16));
    }
}

/// A unit-name suffix unique for the launcher's lifetime: its process id and
/// a launch counter, both in hexadecimal.
pub fn unique_suffix(pid: u32, count: u32) -> (r: String)
    ensures
        r@ == hex_digits(pid as nat) + hex_digits(count as nat),
{
    let mut out: Vec<char> = Vec::new();
    push_hex(pid, &mut out);
    push_hex(count, &mut out);
    string_of(&out)
}

/// The texts of a list of strings.
pub open spec fn texts(v: Seq<String>) -> Seq<Seq<char>> {
    v.map_values(|a: String| a@)
}

/// The `systemd-run` command that starts `args` as the transient user unit
/// `unit`, collected when it ends.
pub fn systemd_run_argv(unit: &str, args: &Vec<String>) -> (r: Vec<String>)
    ensures
        texts(r@) == seq!["systemd-run"@, "--user"@, "--collect"@, "--quiet"@, "--unit="@ + unit@, "--"@]
            + texts(args@),
{
    let mut out: Vec<String> = Vec::new();
    out.push("systemd-run".to_owned());
    out.push("--user".to_owned());
    out.push("--collect".to_owned());
    out.push("--quiet".to_owned());
    out.push(cat("--unit=", unit));
    out.push("--".to_owned());
    let ghost head = texts(out@);
    let mut i: usize = 0;
    while i < args.len()
        invariant
            i <= args@.len(),
            texts(out@) == head + texts(args@.subrange(0, i as int)),
        decreases args@.len() - i,
    {
        let ghost before = texts(out@);
        let a = args[i].clone();
        out.push(a);
        assert(texts(args@.subrange(0, i + 1)) =~= texts(args@.subrange(0, i as int)).push(args@[i as int]@));
        assert(texts(out@) =~= before.push(args@[i as int]@));
        i = i + 1;
    }
    assert(args@.subrange(0, args@.len() as int) =~= args@);
    out
}

/// `s` without every trailing `.desktop` (`str::trim_end_matches`).
pub open spec fn without_desktop_suffix(s: Seq<char>) -> Seq<char>
    decreases s.len(),
{
    if s.len() >= 8 && ends_with(s, ".desktop"@) {
        without_desktop_suffix(s.subrange(0, s.len() - 8))
    } else {
        s
    }
}

/// The id of a default handler as GIO reports it, without `.desktop`.
pub fn handler_id(id: &str) -> (r: String)
    ensures
        r@ == without_desktop_suffix(id@),
{
    proof {
        reveal_strlit(".desktop");
    }
    let suffix = chars_of(".desktop");
    let mut cs = chars_of(id);
    while cs.len() >= 8 && ends_with_exec(&cs, &suffix)
        invariant
            suffix@ == ".desktop"@,
            without_desktop_suffix(id@) == without_desktop_suffix(cs@),
        decreases cs@.len(),
    {
        let n = cs.len();
        cs = sub_chars(&cs, 0, n - 8);
    }
    string_of(&cs)
}

/// The tools tried, in turn, to press Ctrl+V in the focused window: `wtype`
/// and `ydotool` (Wayland), then `xdotool` (X11).
pub fn paste_commands() -> (r: Vec<Vec<&'static str>>)
    ensures
        r@.len() == 3,
        r@[0]@ == seq!["wtype", "-M", "ctrl", "-k", "v", "-m", "ctrl"],
        r@[1]@ == seq!["ydotool", "key", "29:1", "47:1", "47:0", "29:0"],
        r@[2]@ == seq!["xdotool", "key", "--clearmodifiers", "ctrl+v"],
{
    let mut r: Vec<Vec<&'static str>> = Vec::new();
    r.push(vec!["wtype", "-M", "ctrl", "-k", "v", "-m", "ctrl"]);
    r.push(vec!["ydotool", "key", "29:1", "47:1", "47:0", "29:0"]);
    r.push(vec!["xdotool", "key", "--clearmodifiers", "ctrl+v"]);
    r
}

} // verus!
