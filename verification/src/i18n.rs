//! Lightweight localization. English is the default; German is used when the
//! session locale asks for it. All user-facing strings live here, so adding a
//! language means extending the tables below.

use crate::text::{cat, chars_of, lowercase, starts_with, starts_with_exec, str_eq, to_lower};
use vstd::prelude::*;

verus! {

#[derive(Clone, Copy, PartialEq, Eq, Structural, Debug)]
pub enum Lang {
    En,
    De,
}

/// The language a locale string (`LC_ALL`, `LC_MESSAGES` or `LANG`) selects.
pub open spec fn locale_lang(raw: Seq<char>) -> Lang {
    if starts_with(lowercase(raw), "de"@) {
        Lang::De
    } else {
        Lang::En
    }
}

/// German when the (first set) locale variable starts with `de`, any case;
/// English otherwise.
pub fn lang(raw: &str) -> (r: Lang)
    ensures
        r == locale_lang(raw@),
{
    let low = chars_of(to_lower(raw).as_str());
    let de = chars_of("de");
    if starts_with_exec(&low, &de) {
        Lang::De
    } else {
        Lang::En
    }
}

pub open spec fn pick(lang: Lang, en: &'static str, de: &'static str) -> &'static str {
    match lang {
        Lang::En => en,
        Lang::De => de,
    }
}

pub fn search_placeholder(lang: Lang) -> (r: &'static str)
    ensures
        r == pick(lang, "Search apps", "Apps suchen"),
{
    match lang {
        Lang::En => "Search apps",
        Lang::De => "Apps suchen",
    }
}

pub fn no_results(lang: Lang) -> (r: &'static str)
    ensures
        r == pick(lang, "No matches", "Keine Treffer"),
{
    match lang {
        Lang::En => "No matches",
        Lang::De => "Keine Treffer",
    }
}

pub fn calc_hint(lang: Lang) -> (r: &'static str)
    ensures
        r == pick(lang, "Press Enter to copy the result", "Enter kopiert das Ergebnis"),
{
    match lang {
        Lang::En => "Press Enter to copy the result",
        Lang::De => "Enter kopiert das Ergebnis",
    }
}

pub fn badge_system(lang: Lang) -> (r: &'static str)
    ensures
        r == pick(lang, "System", "System"),
{
    match lang {
        Lang::En => "System",
        Lang::De => "System",
    }
}

pub fn hint_open(lang: Lang) -> (r: &'static str)
    ensures
        r == pick(lang, "Open", "Öffnen"),
{
    match lang {
        Lang::En => "Open",
        Lang::De => "Öffnen",
    }
}

pub fn hint_navigate(lang: Lang) -> (r: &'static str)
    ensures
        r == pick(lang, "Navigate", "Navigieren"),
{
    match lang {
        Lang::En => "Navigate",
        Lang::De => "Navigieren",
    }
}

pub fn hint_close(lang: Lang) -> (r: &'static str)
    ensures
        r == pick(lang, "Close", "Schließen"),
{
    match lang {
        Lang::En => "Close",
        Lang::De => "Schließen",
    }
}

/// Localized title of a built-in system action, by its stable id; empty for
/// an unknown id.
pub open spec fn title_of(id: Seq<char>, lang: Lang) -> &'static str {
    if id == "system:lock"@ {
        pick(lang, "Lock screen", "Bildschirm sperren")
    } else if id == "system:logout"@ {
        pick(lang, "Log out", "Abmelden")
    } else if id == "system:suspend"@ {
        pick(lang, "Suspend", "Energie sparen")
    } else if id == "system:reboot"@ {
        pick(lang, "Restart", "Neu starten")
    } else if id == "system:shutdown"@ {
        pick(lang, "Shut down", "Herunterfahren")
    } else {
        ""
    }
}

/// Localized subtitle of a built-in system action; empty for an unknown id.
pub open spec fn subtitle_of(id: Seq<char>, lang: Lang) -> &'static str {
    if id == "system:lock"@ {
        pick(lang, "Lock the session", "Sitzung sperren")
    } else if id == "system:logout"@ {
        pick(lang, "End the session", "Sitzung beenden")
    } else if id == "system:suspend"@ {
        pick(lang, "Enter standby", "In den Standby wechseln")
    } else if id == "system:reboot"@ {
        pick(lang, "Restart the system", "System neu starten")
    } else if id == "system:shutdown"@ {
        pick(lang, "Power off the system", "System ausschalten")
    } else {
        ""
    }
}

/// Localized title for a built-in system action, keyed by its stable id.
pub fn system_title(id: &str, lang: Lang) -> (r: &'static str)
    ensures
        r == title_of(id@, lang),
{
    let en = lang == Lang::En;
    if str_eq(id, "system:lock") {
        if en {
            "Lock screen"
        } else {
            "Bildschirm sperren"
        }
    } else if str_eq(id, "system:logout") {
        if en {
            "Log out"
        } else {
            "Abmelden"
        }
    } else if str_eq(id, "system:suspend") {
        if en {
            "Suspend"
        } else {
            "Energie sparen"
        }
    } else if str_eq(id, "system:reboot") {
        if en {
            "Restart"
        } else {
            "Neu starten"
        }
    } else if str_eq(id, "system:shutdown") {
        if en {
            "Shut down"
        } else {
            "Herunterfahren"
        }
    } else {
        ""
    }
}

/// Localized subtitle for a built-in system action, keyed by its stable id.
pub fn system_subtitle(id: &str, lang: Lang) -> (r: &'static str)
    ensures
        r == subtitle_of(id@, lang),
{
    let en = lang == Lang::En;
    if str_eq(id, "system:lock") {
        if en {
            "Lock the session"
        } else {
            "Sitzung sperren"
        }
    } else if str_eq(id, "system:logout") {
        if en {
            "End the session"
        } else {
            "Sitzung beenden"
        }
    } else if str_eq(id, "system:suspend") {
        if en {
            "Enter standby"
        } else {
            "In den Standby wechseln"
        }
    } else if str_eq(id, "system:reboot") {
        if en {
            "Restart the system"
        } else {
            "System neu starten"
        }
    } else if str_eq(id, "system:shutdown") {
        if en {
            "Power off the system"
        } else {
            "System ausschalten"
        }
    } else {
        ""
    }
}

/// User-facing error when an action could not be started.
pub fn error_run(title: &str, err: &str, lang: Lang) -> (r: String)
    ensures
        r@ == match lang {
            Lang::En => "Could not run "@ + title@ + ": "@ + err@,
            Lang::De => title@ + " konnte nicht ausgeführt werden: "@ + err@,
        },
{
    match lang {
        Lang::En => {
            let a = cat("Could not run ", title);
            let b = cat(a.as_str(), ": ");
            cat(b.as_str(), err)
        },
        Lang::De => {
            let a = cat(title, " konnte nicht ausgeführt werden: ");
            cat(a.as_str(), err)
        },
    }
}

/// User-facing error when the launch history could not be updated.
pub fn error_history(err: &str, lang: Lang) -> (r: String)
    ensures
        r@ == match lang {
            Lang::En => "Could not update launch history: "@ + err@,
            Lang::De => "Verlauf konnte nicht aktualisiert werden: "@ + err@,
        },
{
    match lang {
        Lang::En => cat("Could not update launch history: ", err),
        Lang::De => cat("Verlauf konnte nicht aktualisiert werden: ", err),
    }
}

/// User-facing notice when the history database falls back to memory.
pub fn warn_history_memory(err: &str, lang: Lang) -> (r: String)
    ensures
        r@ == match lang {
            Lang::En => "History database is unavailable; using temporary history: "@ + err@,
            Lang::De => "Verlaufsdatenbank nicht verfügbar; temporärer Verlauf wird genutzt: "@
                + err@,
        },
{
    match lang {
        Lang::En => cat("History database is unavailable; using temporary history: ", err),
        Lang::De => cat("Verlaufsdatenbank nicht verfügbar; temporärer Verlauf wird genutzt: ", err),
    }
}

/// User-facing notice when an action is blocked for lacking a capability.
pub fn error_capability(capability: &str, lang: Lang) -> (r: String)
    ensures
        r@ == match lang {
            Lang::En => "Action blocked: plugin lacks the '"@ + capability@ + "' capability"@,
            Lang::De => "Aktion blockiert: Plugin hat die '"@ + capability@ + "'-Berechtigung nicht"@,
        },
{
    match lang {
        Lang::En => {
            let a = cat("Action blocked: plugin lacks the '", capability);
            cat(a.as_str(), "' capability")
        },
        Lang::De => {
            let a = cat("Aktion blockiert: Plugin hat die '", capability);
            cat(a.as_str(), "'-Berechtigung nicht")
        },
    }
}

} // verus!
