use ai_bridge::cli::{parse_cli, profile_list_lines, Cli, CliArg};

fn cli(args: &[&str]) -> Result<Cli, String> {
    let list: Vec<CliArg> = args.iter().map(|a| CliArg::Text(a.to_string())).collect();
    parse_cli(&list)
}

fn names(list: &[&str]) -> Vec<String> {
    list.iter().map(|n| n.to_string()).collect()
}

#[test]
fn no_args_is_bare_run() {
    assert!(matches!(cli(&[]).unwrap(), Cli::Run { profile: None }));
}

#[test]
fn positional_selects_profile() {
    assert!(
        matches!(cli(&["deepseek"]).unwrap(), Cli::Run { profile: Some(profile) } if profile == "deepseek")
    );
}

#[test]
fn explicit_default_is_passed_through() {
    // `ai-bridge default` is explicit, not a bare launch: it must load
    // default even when another profile is recorded.
    assert!(
        matches!(cli(&["default"]).unwrap(), Cli::Run { profile: Some(profile) } if profile == "default")
    );
}

#[test]
fn list_flags_are_recognized() {
    assert!(matches!(cli(&["-l"]).unwrap(), Cli::List));
    assert!(matches!(cli(&["--list"]).unwrap(), Cli::List));
}

#[test]
fn help_flags_are_recognized_and_win_over_other_args() {
    assert!(matches!(cli(&["-h"]).unwrap(), Cli::Help));
    assert!(matches!(cli(&["--help", "-l"]).unwrap(), Cli::Help));
    assert!(matches!(cli(&["a", "-h"]).unwrap(), Cli::Help));
}

#[test]
fn unknown_option_is_rejected() {
    assert!(cli(&["-x"]).is_err());
    assert!(cli(&["--bogus"]).is_err());
    // A dash-prefixed token is an option, never a profile name.
    assert!(cli(&["-weird-profile"]).is_err());
}

#[test]
fn list_rejects_extra_arguments() {
    assert!(cli(&["-l", "extra"]).is_err());
}

#[test]
fn multiple_positionals_are_rejected() {
    assert!(cli(&["a", "b"]).is_err());
}

#[test]
fn profile_list_lines_marks_current() {
    let lines = profile_list_lines("/p", "/p/default.toml", &names(&["a", "b"]), Some("a"));
    assert!(lines.iter().any(|l| l == "  * a"), "a is current: {lines:?}");
    assert!(lines.iter().any(|l| l == "    b"), "b unmarked: {lines:?}");
}

#[test]
fn profile_list_lines_no_star_when_current_missing() {
    // The recorded profile no longer exists.
    let lines = profile_list_lines("/p", "/p/default.toml", &names(&["a"]), Some("ghost"));
    assert!(lines.iter().any(|l| l == "    a"));
    assert!(!lines.iter().any(|l| l.starts_with("  *")), "no star: {lines:?}");
}

#[test]
fn profile_list_lines_empty_dir_hint() {
    let lines = profile_list_lines("/p", "/p/default.toml", &names(&[]), None);
    assert_eq!(lines.len(), 1);
    assert!(lines[0].starts_with("No profiles found in"));
    assert_eq!(lines[0], "No profiles found in /p. Create /p/default.toml to get started.");
}

#[test]
fn non_utf8_argument_is_rejected() {
    let err = parse_cli(&vec![CliArg::Invalid("\u{fffd}\u{fffd}".to_string())]).err();
    assert_eq!(err.as_deref(), Some("Invalid non-UTF-8 argument: \u{fffd}\u{fffd}"));
}
