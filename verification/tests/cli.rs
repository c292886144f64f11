use jao::completion::Shell;
use jao::error::JaoError;
use jao::help::help_lines;
use jao::run::normalize_required_fingerprint;

#[test]
fn no_args_prints_help() {
    let lines = help_lines(false);
    let text = lines.join("\n");
    assert!(text.contains("USAGE:"));
    assert!(text.contains("jao --list"));
}

#[test]
fn require_fingerprint_without_ci_is_a_parse_error() {
    let err = normalize_required_fingerprint("deadbeef").unwrap_err();
    assert_eq!(
        err,
        JaoError::InvalidRequiredFingerprint { fingerprint: "deadbeef".to_string() }
    );
    assert_eq!(
        format!("error: {}\n", err.message()),
        "error: invalid --require-fingerprint value (expected 64 hex chars): deadbeef\n"
    );
}

#[test]
fn invalid_shell_is_a_parse_error() {
    let err = Shell::try_from(b"fish").unwrap_err();
    assert_eq!(err, JaoError::InvalidArguments("Unknown shell type passed"));
    assert_eq!(format!("error: {}\n", err.message()), "error: Unknown shell type passed\n");
}
