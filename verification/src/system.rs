//! Built-in system actions (lock, suspend, reboot, ...) surfaced as search
//! results, so the launcher can do more than open applications.

use crate::i18n::{subtitle_of, system_subtitle, system_title, title_of, Lang};
use crate::rank::{match_points, match_score, opt_max};
use crate::text::{
    ascii_lower, chars_of, ends_with, is_white, lowercase, starts_with, starts_with_exec, to_lower,
};
use vstd::prelude::*;

verus! {

/// A system action the launcher can run as an external command. Display
/// strings are localized; keywords stay multilingual so a query in either
/// language matches whatever the session language.
pub struct SystemCommand {
    /// Stable id, used as the history key and to look up localized labels.
    pub id: &'static str,
    pub icon: &'static str,
    pub keywords: Vec<&'static str>,
    /// Command and arguments to spawn.
    pub command: Vec<&'static str>,
}

/// Score penalty for a title match, so an app whose name starts with the same
/// letters wins the tie; an exactly typed action name still ranks on top.
pub const TITLE_PENALTY: i64 = 1000;

/// Score penalty for a keyword-only match, mirroring the app metadata penalty.
pub const KEYWORD_PENALTY: i64 = 2500;

/// Whether a word of `t` (split at whitespace) starts with `q`.
pub open spec fn word_starts_with(t: Seq<char>, q: Seq<char>) -> bool {
    &&& forall|k: int| 0 <= k < q.len() ==> !is_white(#[trigger] q[k])
    &&& exists|i: int|
        0 <= i && i + q.len() <= t.len() && (i == 0 || is_white(t[i - 1])) && #[trigger] t.subrange(
            i,
            i + q.len(),
        ) == q
}

/// The best keyword score among the keywords that start with `q`.
pub open spec fn keyword_points(kws: Seq<&'static str>, q: Seq<char>) -> Option<i64>
    decreases kws.len(),
{
    if kws.len() == 0 {
        None
    } else {
        let rest = keyword_points(kws.drop_last(), q);
        if starts_with(kws.last()@, q) {
            opt_max(rest, match_points(kws.last()@, q))
        } else {
            rest
        }
    }
}

/// The score of a system action for a (normalized) query: only word starts
/// count, a title match at a 1000-point penalty, a keyword match at 2500.
pub open spec fn command_points(cmd: SystemCommand, q: Seq<char>, lang: Lang) -> Option<i64> {
    if q.len() == 0 {
        None
    } else {
        let title = lowercase(title_of(cmd.id@, lang)@);
        let title_score = if starts_with(title, q) || word_starts_with(title, q) {
            match match_points(title, q) {
                Some(s) => Some((s - 1000) as i64),
                None => None,
            }
        } else {
            None
        };
        let keyword_score = match keyword_points(cmd.keywords@, q) {
            Some(s) => Some((s - 2500) as i64),
            None => None,
        };
        opt_max(title_score, keyword_score)
    }
}

fn word_starts_with_exec(t: &[char], q: &[char]) -> (r: bool)
    requires
        q@.len() > 0,
    ensures
        r == word_starts_with(t@, q@),
{
    let mut k: usize = 0;
    while k < q.len()
        invariant
            k <= q@.len(),
            forall|j: int| 0 <= j < k ==> !is_white(#[trigger] q@[j]),
        decreases q@.len() - k,
    {
        if crate::text::char_is_white(q[k]) {
            return false;
        }
        k = k + 1;
    }
    let tl = t.len();
    let ql = q.len();
    let mut i: usize = 0;
    while i < tl
        invariant
            tl == t@.len(),
            ql == q@.len(),
            i <= tl,
            forall|j: int| 0 <= j < ql ==> !is_white(#[trigger] q@[j]),
            forall|j: int|
                0 <= j < i && j + ql <= tl && (j == 0 || is_white(t@[j - 1])) ==> #[trigger] t@.subrange(
                    j,
                    j + ql,
                ) != q@,
        decreases tl - i,
    {
        if ql <= tl - i {
            let boundary = i == 0 || crate::text::char_is_white(t[i - 1]);
            if boundary {
                let tail = crate::text::sub_chars(t, i, tl);
                if starts_with_exec(&tail, q) {
                    assert(tail@.subrange(0, ql as int) =~= t@.subrange(i as int, i + ql));
                    return true;
                }
                assert(tail@.subrange(0, ql as int) =~= t@.subrange(i as int, i + ql));
            }
        }
        i = i + 1;
    }
    false
}

fn keyword_score_exec(kws: &Vec<&'static str>, q: &str) -> (r: Option<i64>)
    ensures
        r == keyword_points(kws@, q@),
{
    let qc = chars_of(q);
    let mut best: Option<i64> = None;
    let mut i: usize = 0;
    while i < kws.len()
        invariant
            i <= kws@.len(),
            qc@ == q@,
            best == keyword_points(kws@.subrange(0, i as int), q@),
        decreases kws@.len() - i,
    {
        let kw = kws[i];
        let kc = chars_of(kw);
        let ghost pre = kws@.subrange(0, i + 1);
        assert(pre.drop_last() =~= kws@.subrange(0, i as int));
        if starts_with_exec(&kc, &qc) {
            let s = match_score(kw, q);
            best = match (best, s) {
                (None, x) => x,
                (x, None) => x,
                (Some(x), Some(y)) => Some(
                    if x >= y {
                        x
                    } else {
                        y
                    },
                ),
            };
        }
        i = i + 1;
    }
    assert(kws@.subrange(0, kws@.len() as int) =~= kws@);
    best
}

impl SystemCommand {
    pub fn title(&self, lang: Lang) -> (r: &'static str)
        ensures
            r == title_of(self.id@, lang),
    {
        system_title(self.id, lang)
    }

    pub fn subtitle(&self, lang: Lang) -> (r: &'static str)
        ensures
            r == subtitle_of(self.id@, lang),
    {
        system_subtitle(self.id, lang)
    }

    /// Score the (normalized) query against this action. Only word starts
    /// count: substring and fuzzy matching would let "ter" (from "terminal")
    /// hit "herun*ter*fahren" and outrank the terminal app.
    pub fn match_score(&self, query: &str, lang: Lang) -> (r: Option<i64>)
        ensures
            r == command_points(*self, query@, lang),
    {
        let qc = chars_of(query);
        if qc.len() == 0 {
            return None;
        }
        let title = to_lower(self.title(lang));
        let tc = chars_of(title.as_str());
        let title_score = if starts_with_exec(&tc, &qc) || word_starts_with_exec(&tc, &qc) {
            match match_score(title.as_str(), query) {
                Some(s) => Some((s as i128 - 1000) as i64),
                None => None,
            }
        } else {
            None
        };
        let keyword_score = match keyword_score_exec(&self.keywords, query) {
            Some(s) => Some((s as i128 - 2500) as i64),
            None => None,
        };
        match (title_score, keyword_score) {
            (None, x) => x,
            (x, None) => x,
            (Some(x), Some(y)) => Some(
                if x >= y {
                    x
                } else {
                    y
                },
            ),
        }
    }
}

/// The `gdbus` command line that asks Plasma's logout prompt (the Kickoff
/// power dialog, with its countdown and cancel button) to run `method`.
pub open spec fn prompt_argv(method: &'static str) -> Seq<&'static str> {
    seq![
        "gdbus",
        "call",
        "--session",
        "--dest",
        "org.kde.LogoutPrompt",
        "--object-path",
        "/LogoutPrompt",
        "--method",
        method,
    ]
}

fn plasma_prompt(method: &'static str) -> (r: Vec<&'static str>)
    ensures
        r@ == prompt_argv(method),
{
    let mut v: Vec<&'static str> = Vec::new();
    v.push("gdbus");
    v.push("call");
    v.push("--session");
    v.push("--dest");
    v.push("org.kde.LogoutPrompt");
    v.push("--object-path");
    v.push("/LogoutPrompt");
    v.push("--method");
    v.push(method);
    assert(v@ =~= prompt_argv(method));
    v
}

fn words(ws: &[&'static str]) -> (r: Vec<&'static str>)
    ensures
        r@ == ws@,
{
    let mut v: Vec<&'static str> = Vec::new();
    let mut i: usize = 0;
    while i < ws.len()
        invariant
            i <= ws@.len(),
            v@ == ws@.subrange(0, i as int),
        decreases ws@.len() - i,
    {
        v.push(ws[i]);
        i = i + 1;
        assert(v@ =~= ws@.subrange(0, i as int));
    }
    assert(v@ =~= ws@);
    v
}

/// One row of the action table.
pub open spec fn is_command(
    c: SystemCommand,
    id: &'static str,
    icon: &'static str,
    keywords: Seq<&'static str>,
    argv: Seq<&'static str>,
) -> bool {
    c.id == id && c.icon == icon && c.keywords@ == keywords && c.command@ == argv
}

/// The table of system actions, in display order.
pub open spec fn command_table(r: Seq<SystemCommand>) -> bool {
    &&& r.len() == 5
    &&& is_command(
        r[0],
        "system:lock",
        "system-lock-screen",
        seq!["lock", "sperren", "bildschirm", "screen"],
        seq!["loginctl", "lock-session"],
    )
    &&& is_command(
        r[1],
        "system:logout",
        "system-log-out",
        seq!["logout", "abmelden", "logoff", "exit"],
        prompt_argv("org.kde.LogoutPrompt.promptLogout"),
    )
    &&& is_command(
        r[2],
        "system:suspend",
        "system-suspend",
        seq!["suspend", "standby", "sleep", "schlaf", "energie"],
        seq!["systemctl", "suspend"],
    )
    &&& is_command(
        r[3],
        "system:reboot",
        "system-reboot",
        seq!["reboot", "restart", "neustart", "neu starten"],
        prompt_argv("org.kde.LogoutPrompt.promptReboot"),
    )
    &&& is_command(
        r[4],
        "system:shutdown",
        "system-shutdown",
        seq!["shutdown", "poweroff", "herunterfahren", "ausschalten"],
        prompt_argv("org.kde.LogoutPrompt.promptShutDown"),
    )
}

/// The available system actions. Session-ending actions (log out, restart,
/// shut down) never act directly: they open Plasma's confirmation prompt,
/// since a launcher is driven by muscle memory and Enter often lands before
/// reading. Lock and suspend are harmless to undo and run immediately.
pub fn commands() -> (r: Vec<SystemCommand>)
    ensures
        command_table(r@),
{
    let mut v: Vec<SystemCommand> = Vec::new();
    v.push(
        SystemCommand {
            id: "system:lock",
            icon: "system-lock-screen",
            keywords: words(&["lock", "sperren", "bildschirm", "screen"]),
            command: words(&["loginctl", "lock-session"]),
        },
    );
    v.push(
        SystemCommand {
            id: "system:logout",
            icon: "system-log-out",
            keywords: words(&["logout", "abmelden", "logoff", "exit"]),
            command: plasma_prompt("org.kde.LogoutPrompt.promptLogout"),
        },
    );
    v.push(
        SystemCommand {
            id: "system:suspend",
            icon: "system-suspend",
            keywords: words(&["suspend", "standby", "sleep", "schlaf", "energie"]),
            command: words(&["systemctl", "suspend"]),
        },
    );
    v.push(
        SystemCommand {
            id: "system:reboot",
            icon: "system-reboot",
            keywords: words(&["reboot", "restart", "neustart", "neu starten"]),
            command: plasma_prompt("org.kde.LogoutPrompt.promptReboot"),
        },
    );
    v.push(
        SystemCommand {
            id: "system:shutdown",
            icon: "system-shutdown",
            keywords: words(&["shutdown", "poweroff", "herunterfahren", "ausschalten"]),
            command: plasma_prompt("org.kde.LogoutPrompt.promptShutDown"),
        },
    );
    v
}

/// The action an id names: what follows `system:`.
pub open spec fn action_of(id: Seq<char>) -> Seq<char> {
    id.subrange(7, id.len() as int)
}

/// Every action that goes through Plasma's prompt (its command is a
/// `gdbus` call) asks the prompt for that very action: the prompt method,
/// ASCII-lowercased, ends with the action its id names (`system:reboot`
/// calls `…promptReboot`), so no two such rows ask for the same thing.
pub proof fn lemma_prompts_ask_for_their_action(r: Seq<SystemCommand>, i: int, j: int)
    requires
        command_table(r),
        0 <= i < r.len(),
        0 <= j < r.len(),
        r[i].command@.len() > 0,
        r[i].command@[0]@ == "gdbus"@,
    ensures
        starts_with(r[i].id@, "system:"@),
        ends_with(ascii_lower(r[i].command@.last()@), action_of(r[i].id@)),
        i != j && r[j].command@.len() > 0 && r[j].command@[0]@ == "gdbus"@ ==> r[i].command@.last()@
            != r[j].command@.last()@,
{
    reveal_strlit("gdbus");
    reveal_strlit("loginctl");
    reveal_strlit("systemctl");
    reveal_strlit("system:");
    reveal_strlit("system:logout");
    reveal_strlit("system:reboot");
    reveal_strlit("system:shutdown");
    reveal_strlit("org.kde.LogoutPrompt.promptLogout");
    reveal_strlit("org.kde.LogoutPrompt.promptReboot");
    reveal_strlit("org.kde.LogoutPrompt.promptShutDown");
    assert(r[0].command@[0] == "loginctl");
    assert(r[2].command@[0] == "systemctl");
    assert("loginctl"@.len() != "gdbus"@.len());
    assert("systemctl"@.len() != "gdbus"@.len());
    assert(i == 1 || i == 3 || i == 4);
    let m = r[i].command@.last()@;
    let a = action_of(r[i].id@);
    assert(r[i].id@.subrange(0, 7) =~= "system:"@);
    let low = ascii_lower(m);
    assert(low.subrange(low.len() - a.len(), low.len() as int) =~= a);
    if i != j && r[j].command@.len() > 0 && r[j].command@[0]@ == "gdbus"@ {
        assert(j == 1 || j == 3 || j == 4);
        let mj = r[j].command@.last()@;
        assert(m.len() != mj.len() || m[27] != mj[27]);
    }
}

/// Session-ending actions (log out, restart, shut down) never act directly:
/// their command is a `gdbus` call to Plasma's confirmation prompt, asking
/// for the action the id names.
pub proof fn lemma_session_ending_actions_prompt(r: Seq<SystemCommand>, i: int)
    requires
        command_table(r),
        0 <= i < r.len(),
        r[i].id@ == "system:logout"@ || r[i].id@ == "system:reboot"@ || r[i].id@ == "system:shutdown"@,
    ensures
        r[i].command@.len() == 9,
        r[i].command@[0]@ == "gdbus"@,
        r[i].command@[4]@ == "org.kde.LogoutPrompt"@,
        ends_with(ascii_lower(r[i].command@.last()@), action_of(r[i].id@)),
{
    reveal_strlit("system:lock");
    reveal_strlit("system:logout");
    reveal_strlit("system:suspend");
    reveal_strlit("system:reboot");
    reveal_strlit("system:shutdown");
    assert("system:lock"@[7] != "system:logout"@[7] || "system:lock"@.len() != "system:logout"@.len());
    assert("system:lock"@.len() != "system:reboot"@.len());
    assert("system:lock"@.len() != "system:shutdown"@.len());
    assert("system:suspend"@[8] != "system:shutdown"@[8]);
    assert("system:suspend"@.len() != "system:logout"@.len());
    assert("system:suspend"@.len() != "system:reboot"@.len());
    assert(i == 1 || i == 3 || i == 4);
    lemma_prompts_ask_for_their_action(r, i, i);
}

} // verus!
