use screenclip::cli::{parse_cli_args, CliAction, CliDiagnostic};

fn args(list: &[&str]) -> Vec<String> {
    list.iter().map(|s| s.to_string()).collect()
}

#[test]
fn no_arguments_run_without_capturing() {
    let r = parse_cli_args(&args(&[]));
    assert_eq!(r.action, CliAction::Run { capture_on_start: false });
    assert!(r.diagnostics.is_empty());
}

#[test]
fn capture_flag_starts_a_capture() {
    for flag in ["--capture", "-c"] {
        let r = parse_cli_args(&args(&[flag]));
        assert_eq!(r.action, CliAction::Run { capture_on_start: true });
    }
}

#[test]
fn help_flag_prints_usage() {
    for flag in ["--help", "-h"] {
        assert_eq!(parse_cli_args(&args(&["-c", flag])).action, CliAction::PrintHelp);
    }
}

#[test]
fn version_flag_stops_reading() {
    let r = parse_cli_args(&args(&["--bogus", "-V", "stray"]));
    assert_eq!(r.action, CliAction::PrintVersion);
    assert_eq!(r.diagnostics.len(), 1);
    assert!(matches!(&r.diagnostics[0], CliDiagnostic::UnknownFlag(a) if a == "--bogus"));
    assert_eq!(parse_cli_args(&args(&["--version"])).action, CliAction::PrintVersion);
}

#[test]
fn unknown_arguments_are_reported_in_order_then_usage() {
    let r = parse_cli_args(&args(&["file.png", "-x", "--capture", "-"]));
    assert_eq!(r.action, CliAction::PrintHelp);
    assert_eq!(r.diagnostics.len(), 3);
    assert!(matches!(&r.diagnostics[0], CliDiagnostic::UnexpectedPositional(a) if a == "file.png"));
    assert!(matches!(&r.diagnostics[1], CliDiagnostic::UnknownFlag(a) if a == "-x"));
    assert!(matches!(&r.diagnostics[2], CliDiagnostic::UnknownFlag(a) if a == "-"));
}

#[test]
fn flags_are_matched_exactly() {
    let r = parse_cli_args(&args(&["--captured", "-C"]));
    assert_eq!(r.action, CliAction::PrintHelp);
    assert_eq!(r.diagnostics.len(), 2);
}
