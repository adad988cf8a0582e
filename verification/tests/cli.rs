use mynmon::cli::{help_text, parse_args, str_equal, unknown_option_lines, version_line, CliAction};

fn args(v: &[&str]) -> Vec<String> {
    v.iter().map(|s| s.to_string()).collect()
}

#[test]
fn no_option_runs() {
    assert!(matches!(parse_args(&args(&["mynmon"])), CliAction::Run));
    assert!(matches!(parse_args(&args(&[])), CliAction::Run));
}

#[test]
fn version_and_help_options() {
    assert!(matches!(parse_args(&args(&["mynmon", "-v"])), CliAction::Version));
    assert!(matches!(parse_args(&args(&["mynmon", "--version", "x"])), CliAction::Version));
    assert!(matches!(parse_args(&args(&["mynmon", "-h"])), CliAction::Help));
    assert!(matches!(parse_args(&args(&["mynmon", "--help"])), CliAction::Help));
}

#[test]
fn unknown_option_is_reported() {
    match parse_args(&args(&["mynmon", "--invalid"])) {
        CliAction::Unknown(o) => assert_eq!(o, "--invalid"),
        _ => panic!("expected an unknown option"),
    }
    assert_eq!(
        unknown_option_lines("--invalid", "mynmon"),
        vec!["Error: Unknown option '--invalid'".to_string(), "Usage: mynmon [-h | --help] [-v | --version]".to_string()]
    );
}

#[test]
fn texts_for_version_and_help() {
    assert_eq!(version_line("0.5.0"), "MyNMON v0.5.0");
    let h = help_text("0.5.0");
    assert_eq!(h.len(), 21);
    assert_eq!(h[0], "MyNMON v0.5.0");
    assert_eq!(h[7], "  -h, --help     Print this help message");
    assert_eq!(h[20], "  q  Quit the application (also 'Esc' key)");
}

#[test]
fn string_equality() {
    assert!(str_equal("-v", "-v"));
    assert!(!str_equal("-v", "-vv"));
    assert!(!str_equal("-v", "-h"));
    assert!(str_equal("", ""));
}
