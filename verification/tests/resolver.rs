use uuid_cli::resolver::Request;
use uuid_cli::resolver::Resolution;
use uuid_cli::resolver::resolve;
use uuid_cli::types::Format;
use uuid_cli::types::Version;

fn args(tokens: &[&str]) -> Vec<String> {
    tokens.iter().map(|t| t.to_string()).collect()
}

fn run_of(r: Resolution) -> Request {
    match r {
        Resolution::Run(req) => req,
        Resolution::Help => panic!("expected a run, got help"),
        Resolution::Unrecognized(tok) => panic!("expected a run, got unrecognized {tok}"),
    }
}

#[test]
fn defaults_with_no_tokens() {
    let req = run_of(resolve(&args(&[])));
    assert_eq!(req.version, None);
    assert_eq!(req.format, Format::Lowercase);
}

#[test]
fn version_tokens_select_versions() {
    assert_eq!(run_of(resolve(&args(&["v4"]))).version, Some(Version::Random));
    assert_eq!(run_of(resolve(&args(&["v5"]))).version, Some(Version::NameDerived));
}

#[test]
fn format_tokens_select_formats() {
    assert_eq!(run_of(resolve(&args(&["-l"]))).format, Format::Lowercase);
    assert_eq!(run_of(resolve(&args(&["--lowercase"]))).format, Format::Lowercase);
    assert_eq!(run_of(resolve(&args(&["-u"]))).format, Format::Uppercase);
    assert_eq!(run_of(resolve(&args(&["-U"]))).format, Format::Uppercase);
    assert_eq!(run_of(resolve(&args(&["--uppercase"]))).format, Format::Uppercase);
    assert_eq!(run_of(resolve(&args(&["-b"]))).format, Format::Binary);
    assert_eq!(run_of(resolve(&args(&["--binary"]))).format, Format::Binary);
}

#[test]
fn conflicting_format_flags_are_last_wins() {
    assert_eq!(run_of(resolve(&args(&["-l", "-u"]))), run_of(resolve(&args(&["-u"]))));
    assert_eq!(run_of(resolve(&args(&["-u", "-b", "-l"]))).format, Format::Lowercase);
}

#[test]
fn repeated_format_flag_is_idempotent() {
    assert_eq!(run_of(resolve(&args(&["-u", "-u"]))), run_of(resolve(&args(&["-u"]))));
}

#[test]
fn version_flags_are_last_wins() {
    assert_eq!(run_of(resolve(&args(&["v4", "v5"]))).version, Some(Version::NameDerived));
    assert_eq!(run_of(resolve(&args(&["v5", "v4"]))).version, Some(Version::Random));
}

#[test]
fn version_and_format_are_independent_axes() {
    let req = run_of(resolve(&args(&["v5", "-b"])));
    assert_eq!(req.version, Some(Version::NameDerived));
    assert_eq!(req.format, Format::Binary);
    let req = run_of(resolve(&args(&["-u", "v4"])));
    assert_eq!(req.version, Some(Version::Random));
    assert_eq!(req.format, Format::Uppercase);
}

#[test]
fn help_token_short_circuits() {
    assert!(matches!(resolve(&args(&["-h"])), Resolution::Help));
    assert!(matches!(resolve(&args(&["--help"])), Resolution::Help));
    assert!(matches!(resolve(&args(&["-l", "--help", "v4"])), Resolution::Help));
}

#[test]
fn unrecognized_token_is_rejected() {
    match resolve(&args(&["--bogus"])) {
        Resolution::Unrecognized(tok) => assert_eq!(tok, "--bogus"),
        _ => panic!("expected the token to be rejected"),
    }
}

#[test]
fn first_unrecognized_token_wins_over_later_help() {
    match resolve(&args(&["v4", "nope", "-h"])) {
        Resolution::Unrecognized(tok) => assert_eq!(tok, "nope"),
        _ => panic!("expected the token to be rejected"),
    }
}
