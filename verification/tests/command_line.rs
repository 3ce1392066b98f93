//! The command line and how the program ends.

use mentisdbd::args::{daemon_help_text, parse_daemon_args, DaemonArg, DaemonArgMode};
use mentisdbd::exit::{both_mode_exit, single_mode_exit, usage_exit, TaskOutcome};

fn parse(args: &[&str]) -> Result<DaemonArgMode<String>, String> {
    let args: Vec<DaemonArg<String>> = args
        .iter()
        .map(|arg| DaemonArg { raw: arg.to_string(), text: arg.to_string() })
        .collect();
    parse_daemon_args(args, "mentisdbd".to_string())
}

#[test]
fn help_text_lists_all_supported_invocations() {
    let help = daemon_help_text();

    assert!(help.contains("mentisdbd"));
    assert!(help.contains("--mode stdio"));
    assert!(help.contains("--mode http"));
    assert!(help.contains("--mode both"));
    assert!(help.contains("--stdio-mcp"));
    assert!(help.contains("--help"));

    for sub in ["setup", "wizard", "add", "search", "agents", "backup", "restore"] {
        assert!(help.contains(sub), "daemon help is missing subcommand '{sub}': {help}");
    }
}

#[test]
fn help_text_is_laid_out_as_a_usage_page() {
    let help = daemon_help_text();
    assert!(help.starts_with("mentisdbd — headless MentisDB daemon\n\nUsage:\n"));
    assert!(help.ends_with("Configuration is read from MENTISDB_* environment variables.\n"));
    assert_eq!(help.lines().count(), 14);
}

#[test]
fn no_args_starts_default_http_mode() {
    let mode = parse(&[]).unwrap();
    assert_eq!(mode, DaemonArgMode::Run);
}

#[test]
fn help_flags_return_help_mode() {
    for flag in ["--help", "-h", "help"] {
        let mode = parse(&[flag]).unwrap();
        assert_eq!(mode, DaemonArgMode::Help, "flag '{flag}' should parse as Help");
    }
}

#[test]
fn mode_flag_selects_daemon_transport() {
    assert_eq!(parse(&["--mode", "stdio"]).unwrap(), DaemonArgMode::Stdio);
    assert_eq!(parse(&["--mode", "http"]).unwrap(), DaemonArgMode::Run);
    assert_eq!(parse(&["--mode", "both"]).unwrap(), DaemonArgMode::Both);
}

#[test]
fn mode_flag_rejects_unknown_values() {
    let err = parse(&["--mode", "telegram"]).unwrap_err();
    assert!(err.contains("Invalid --mode value"));
    assert_eq!(err, "Invalid --mode value 'telegram'. Valid values: stdio, http, both");
}

#[test]
fn mode_flag_requires_a_value() {
    let err = parse(&["--mode"]).unwrap_err();
    assert!(err.contains("requires a value"));
    assert_eq!(err, "--mode requires a value (stdio, http, or both)");
}

#[test]
fn stdio_mcp_flag_is_alias_for_mode_stdio() {
    assert_eq!(parse(&["--stdio-mcp"]).unwrap(), DaemonArgMode::Stdio);
}

#[test]
fn cli_subcommands_are_delegated_unchanged() {
    for sub in ["setup", "wizard", "add", "search", "agents", "backup", "restore"] {
        let mode = parse(&[sub]).unwrap();
        match mode {
            DaemonArgMode::CliSubcommand(args) => {
                assert_eq!(args[0], "mentisdbd");
                assert_eq!(args[1], sub);
            }
            other => panic!("subcommand '{sub}' should parse as CliSubcommand, got {other:?}"),
        }
    }
}

#[test]
fn cli_subcommand_preserves_all_trailing_arguments() {
    match parse(&["add", "Hello world", "--type", "Insight", "--tag", "poc"]).unwrap() {
        DaemonArgMode::CliSubcommand(args) => {
            assert_eq!(args[0], "mentisdbd");
            assert_eq!(args[1], "add");
            assert_eq!(args[2], "Hello world");
            assert_eq!(args[3], "--type");
            assert_eq!(args[4], "Insight");
            assert_eq!(args[5], "--tag");
            assert_eq!(args[6], "poc");
            assert_eq!(args.len(), 7);
        }
        other => panic!("expected CliSubcommand, got {other:?}"),
    }
}

#[test]
fn cli_subcommand_keeps_the_system_form_of_arguments() {
    let args = vec![
        DaemonArg { raw: vec![0x61u8, 0x64, 0x64], text: "add".to_string() },
        DaemonArg { raw: vec![0x66u8, 0xff], text: "f\u{fffd}".to_string() },
    ];
    match parse_daemon_args(args, vec![0x6du8]) {
        Ok(DaemonArgMode::CliSubcommand(command)) => {
            assert_eq!(command, vec![vec![0x6du8], vec![0x61, 0x64, 0x64], vec![0x66, 0xff]]);
        }
        other => panic!("expected CliSubcommand, got {other:?}"),
    }
}

#[test]
fn unknown_arguments_are_rejected() {
    let err = parse(&["--frobnicate"]).unwrap_err();
    assert!(err.contains("Unexpected arguments"));
    assert_eq!(err, "Unexpected arguments for `mentisdbd`: --frobnicate");
    let err = parse(&["a", "b", "c"]).unwrap_err();
    assert_eq!(err, "Unexpected arguments for `mentisdbd`: a b c");
}

#[test]
fn help_with_company_is_no_help() {
    let err = parse(&["--help", "me"]).unwrap_err();
    assert_eq!(err, "Unexpected arguments for `mentisdbd`: --help me");
}

#[test]
fn a_subcommand_takes_the_mode_flag_along() {
    match parse(&["search", "--mode", "stdio"]).unwrap() {
        DaemonArgMode::CliSubcommand(args) => {
            assert_eq!(args, vec!["mentisdbd", "search", "--mode", "stdio"]);
        }
        other => panic!("expected CliSubcommand, got {other:?}"),
    }
}

#[test]
fn the_first_mode_flag_decides() {
    assert_eq!(
        parse(&["--stdio-mcp", "--mode", "both", "--mode", "http"]).unwrap(),
        DaemonArgMode::Both
    );
    assert_eq!(
        parse(&["x", "--mode", "--mode"]).unwrap_err(),
        "Invalid --mode value '--mode'. Valid values: stdio, http, both"
    );
}

#[test]
fn the_stdio_flag_may_stand_anywhere() {
    assert_eq!(parse(&["x", "y", "--stdio-mcp"]).unwrap(), DaemonArgMode::Stdio);
}

#[test]
fn serving_in_one_way_ends_with_its_outcome() {
    let report = single_mode_exit(Ok(()));
    assert_eq!(report.code, 0);
    assert!(report.errors.is_empty());
    let report = single_mode_exit(Err("port taken".to_string()));
    assert_eq!(report.code, 1);
    assert_eq!(report.errors, vec!["port taken"]);
}

#[test]
fn serving_in_both_ways_ends_with_the_http_outcome() {
    let report = both_mode_exit(TaskOutcome::Failed("ignored".to_string()), TaskOutcome::Finished);
    assert_eq!(report.code, 0);
    assert!(report.errors.is_empty());
    let report = both_mode_exit(TaskOutcome::Lost("gone".to_string()), TaskOutcome::Finished);
    assert_eq!(report.code, 0);
    assert_eq!(report.errors, vec!["Stdio server error: gone"]);
    let report = both_mode_exit(
        TaskOutcome::Lost("gone".to_string()),
        TaskOutcome::Failed("port taken".to_string()),
    );
    assert_eq!(report.code, 1);
    assert_eq!(report.errors, vec!["Stdio server error: gone", "HTTP server error: port taken"]);
    let report = both_mode_exit(TaskOutcome::Finished, TaskOutcome::Lost("panic".to_string()));
    assert_eq!(report.code, 1);
    assert_eq!(report.errors, vec!["HTTP server join error: panic"]);
}

#[test]
fn a_refused_command_line_shows_the_help() {
    let report = usage_exit("no such thing".to_string());
    assert_eq!(report.code, 2);
    assert_eq!(report.errors, vec!["no such thing", "", daemon_help_text()]);
}
