//! The launcher's command line.

use crate::text::str_eq;
use vstd::prelude::*;

verus! {

/// What the launcher was asked to do.
#[derive(Clone, Copy, Debug, PartialEq, Eq, Structural)]
pub enum Cli {
    /// Open the launcher (`background`: start hidden, for the login autostart).
    Launch { background: bool },
    /// Forget all launch history and exit.
    ClearHistory,
    /// Bind the Meta key to the launcher on KDE Plasma and exit.
    SetupShortcut,
    /// Show the help.
    Help,
}

/// What one argument asks for, if it is a known flag.
pub open spec fn flag_of(arg: Seq<char>) -> Option<Cli> {
    if arg == "--background"@ {
        Some(Cli::Launch { background: true })
    } else if arg == "--clear-history"@ {
        Some(Cli::ClearHistory)
    } else if arg == "--setup-shortcut"@ {
        Some(Cli::SetupShortcut)
    } else if arg == "-h"@ || arg == "--help"@ {
        Some(Cli::Help)
    } else {
        None
    }
}

/// The outcome of reading `args`: the last flag wins; the first unknown
/// argument is an error.
pub open spec fn cli_of(args: Seq<String>) -> Result<Cli, Seq<char>>
    decreases args.len(),
{
    if args.len() == 0 {
        Ok(Cli::Launch { background: false })
    } else {
        match cli_of(args.drop_last()) {
            Err(e) => Err(e),
            Ok(_) => match flag_of(args.last()@) {
                Some(c) => Ok(c),
                None => Err(args.last()@),
            },
        }
    }
}

/// Once an argument is refused, later arguments do not change the outcome.
proof fn lemma_error_sticks(args: Seq<String>, n: int)
    requires
        0 <= n <= args.len(),
        cli_of(args.subrange(0, n)) is Err,
    ensures
        cli_of(args) == cli_of(args.subrange(0, n)),
    decreases args.len() - n,
{
    if n < args.len() {
        assert(args.subrange(0, n + 1).drop_last() =~= args.subrange(0, n));
        lemma_error_sticks(args, n + 1);
    } else {
        assert(args.subrange(0, n) =~= args);
    }
}

fn flag(arg: &str) -> (r: Option<Cli>)
    ensures
        r == flag_of(arg@),
{
    if str_eq(arg, "--background") {
        Some(Cli::Launch { background: true })
    } else if str_eq(arg, "--clear-history") {
        Some(Cli::ClearHistory)
    } else if str_eq(arg, "--setup-shortcut") {
        Some(Cli::SetupShortcut)
    } else if str_eq(arg, "-h") || str_eq(arg, "--help") {
        Some(Cli::Help)
    } else {
        None
    }
}

/// Parse the launcher's own flags (program name excluded); the offending
/// argument is returned if one is unknown.
pub fn parse_cli(args: &[String]) -> (r: Result<Cli, String>)
    ensures
        match r {
            Ok(c) => cli_of(args@) == Ok::<Cli, Seq<char>>(c),
            Err(e) => cli_of(args@) == Err::<Cli, Seq<char>>(e@),
        },
{
    let mut cli = Cli::Launch { background: false };
    let mut i: usize = 0;
    while i < args.len()
        invariant
            i <= args@.len(),
            cli_of(args@.subrange(0, i as int)) == Ok::<Cli, Seq<char>>(cli),
        decreases args@.len() - i,
    {
        assert(args@.subrange(0, i + 1).drop_last() =~= args@.subrange(0, i as int));
        match flag(args[i].as_str()) {
            Some(c) => cli = c,
            None => {
                proof {
                    lemma_error_sticks(args@, i as int + 1);
                }
                return Err(args[i].clone());
            },
        }
        i = i + 1;
    }
    assert(args@.subrange(0, args@.len() as int) =~= args@);
    Ok(cli)
}

} // verus!
