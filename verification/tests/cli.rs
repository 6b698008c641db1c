use nursearch::cli::{parse_cli, Cli};

fn parse(list: &[&str]) -> Result<Cli, String> {
    let args: Vec<String> = list.iter().map(|s| s.to_string()).collect();
    parse_cli(&args)
}

#[test]
fn parses_command_line_flags() {
    assert_eq!(parse(&[]), Ok(Cli::Launch { background: false }));
    assert_eq!(parse(&["--background"]), Ok(Cli::Launch { background: true }));
    assert_eq!(parse(&["--clear-history"]), Ok(Cli::ClearHistory));
    assert_eq!(parse(&["--setup-shortcut"]), Ok(Cli::SetupShortcut));
    assert_eq!(parse(&["--other"]), Err("--other".to_string()));
}

#[test]
fn last_flag_wins_and_errors_stick() {
    assert_eq!(parse(&["--background", "-h"]), Ok(Cli::Help));
    assert_eq!(parse(&["--x", "--background"]), Err("--x".to_string()));
}
