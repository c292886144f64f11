use jao::bytes::{bytes_equal, compare_bytes, starts_with_bytes, LexOrder};
use jao::completion::{
    complete_options, complete_request, complete_script_parts, complete_shells, completion_context,
    CompletionContext, CompletionRequest, Shell,
};
use jao::error::JaoError;
use jao::fingerprint::{fingerprint, hex_lower};
use jao::help::{help_lines, should_style, BOLD, GREEN, RESET, UNDERLINE};
use jao::run::{
    compare_fingerprints, launch_plan, normalize_required_fingerprint, plan_script_execution, run_script_ci, script_exit_result, trust_answer,
    trust_gate, ScriptTrustState, TrustGate,
};
use jao::scripts::{
    find_script, listing_line, scan_directory, script_file_name, DirectoryEntry, script_parts_from_file_name, Platform, ScriptParts,
};
use jao::text::decimal_string;

fn words(ws: &[&str]) -> Vec<Vec<u8>> {
    ws.iter().map(|w| w.as_bytes().to_vec()).collect()
}

fn parts(ps: &[&str]) -> ScriptParts {
    let mut p = ScriptParts::new();
    for x in ps {
        p.push(x.as_bytes());
    }
    p
}

fn strings(v: Vec<Vec<u8>>) -> Vec<String> {
    v.into_iter().map(|b| String::from_utf8(b).unwrap()).collect()
}

const ABC_SHA256: &str = "ba7816bf8f01cfea414140de5dae2223b00361a396177a9cb410ff61f20015ad";
const EMPTY_SHA256: &str = "e3b0c44298fc1c149afbf4c8996fb92427ae41e4649b934ca495991b7852b855";

// ---------------------------------------------------------------------------
// Bytes
// ---------------------------------------------------------------------------

#[test]
fn starts_with_bytes_checks_prefixes() {
    assert!(starts_with_bytes(b"--list", b"--l"));
    assert!(starts_with_bytes(b"--list", b""));
    assert!(!starts_with_bytes(b"--l", b"--list"));
    assert!(!starts_with_bytes(b"deploy", b"dep1"));
}

#[test]
fn compare_bytes_is_lexicographic() {
    assert_eq!(compare_bytes(b"api", b"app"), LexOrder::Less);
    assert_eq!(compare_bytes(b"app", b"api"), LexOrder::Greater);
    assert_eq!(compare_bytes(b"ap", b"api"), LexOrder::Less);
    assert_eq!(compare_bytes(b"api", b"api"), LexOrder::Equal);
    assert!(bytes_equal(b"x", b"x"));
    assert!(!bytes_equal(b"x", b"xy"));
}

// ---------------------------------------------------------------------------
// Shells and completion
// ---------------------------------------------------------------------------

#[test]
fn shells_are_selected_by_name() {
    assert_eq!(Shell::try_from(b"bash"), Ok(Shell::Bash));
    assert_eq!(Shell::try_from(b"zsh"), Ok(Shell::Zsh));
    assert_eq!(Shell::try_from(b"Bash"), Err(JaoError::InvalidArguments("Unknown shell type passed")));
    assert_eq!(Shell::Bash.name(), "bash");
    assert_eq!(Shell::Zsh.name(), "zsh");
}

#[test]
fn options_are_completed_in_order() {
    assert_eq!(
        strings(complete_options(b"--")),
        vec!["--help", "--version", "--list", "--ci", "--fingerprint", "--require-fingerprint", "--completions"]
    );
    assert_eq!(strings(complete_options(b"--c")), vec!["--ci", "--completions"]);
    assert!(complete_options(b"--x").is_empty());
}

#[test]
fn offered_shells_are_accepted() {
    assert_eq!(strings(complete_shells(b"")), vec!["bash", "zsh"]);
    assert_eq!(strings(complete_shells(b"z")), vec!["zsh"]);
    for name in complete_shells(b"") {
        assert!(Shell::try_from(&name).is_ok());
    }
}

#[test]
fn context_at_the_start_is_a_script() {
    match completion_context(&words(&["dep"]), 0) {
        CompletionContext::Scripts { word_being_typed, prior_parts } => {
            assert_eq!(word_being_typed, b"dep".to_vec());
            assert_eq!(prior_parts.len(), 0);
        }
        other => panic!("unexpected {other:?}"),
    }
}

#[test]
fn context_for_a_dash_is_options() {
    match completion_context(&words(&["--ci", "--l"]), 1) {
        CompletionContext::Options { word_being_typed } => assert_eq!(word_being_typed, b"--l".to_vec()),
        other => panic!("unexpected {other:?}"),
    }
}

#[test]
fn completions_takes_exactly_one_value() {
    assert!(matches!(
        completion_context(&words(&["--completions", "b"]), 1),
        CompletionContext::Shells { .. }
    ));
    assert!(matches!(
        completion_context(&words(&["--completions", "bash", "x"]), 2),
        CompletionContext::Unsupported
    ));
}

#[test]
fn fingerprint_value_is_not_completed() {
    assert!(matches!(
        completion_context(&words(&["--require-fingerprint", "ab"]), 1),
        CompletionContext::Unsupported
    ));
    match completion_context(&words(&["--require-fingerprint", "ab", "dep"]), 2) {
        CompletionContext::Scripts { prior_parts, .. } => assert_eq!(prior_parts.len(), 0),
        other => panic!("unexpected {other:?}"),
    }
}

#[test]
fn list_help_and_version_end_completion() {
    for flag in ["--list", "--help", "--version"] {
        assert!(matches!(completion_context(&words(&[flag, "x"]), 1), CompletionContext::Unsupported));
    }
}

#[test]
fn script_words_after_the_first_are_parts() {
    match completion_context(&words(&["deploy", "--weird", "pr"]), 2) {
        CompletionContext::Scripts { word_being_typed, prior_parts } => {
            assert_eq!(word_being_typed, b"pr".to_vec());
            assert!(prior_parts.same_parts(&parts(&["deploy", "--weird"])));
        }
        other => panic!("unexpected {other:?}"),
    }
    match completion_context(&words(&["--fingerprint", "--list"]), 2) {
        CompletionContext::Scripts { word_being_typed, prior_parts } => {
            assert!(word_being_typed.is_empty());
            assert!(prior_parts.same_parts(&parts(&["--list"])));
        }
        other => panic!("unexpected {other:?}"),
    }
}

#[test]
fn script_parts_are_sorted_and_unique() {
    let scripts = vec![
        parts(&["deploy", "web", "prod"]),
        parts(&["deploy", "api", "prod"]),
        parts(&["deploy", "api", "dev"]),
        parts(&["test"]),
        parts(&["deploy"]),
    ];
    let got = complete_script_parts(&scripts, &parts(&["deploy"]), b"");
    assert_eq!(strings(got), vec!["api", "web"]);
    let got = complete_script_parts(&scripts, &parts(&["deploy", "api"]), b"p");
    assert_eq!(strings(got), vec!["prod"]);
    let got = complete_script_parts(&scripts, &parts(&[]), b"");
    assert_eq!(strings(got), vec!["deploy", "test"]);
}

#[test]
fn complete_request_dispatches_on_context() {
    let scripts = vec![parts(&["deploy", "api"]), parts(&["test"])];
    let req = CompletionRequest { index_to_complete: 0, given_arguments: words(&["--co"]) };
    assert_eq!(strings(complete_request(&scripts, &req)), vec!["--completions"]);
    let req = CompletionRequest { index_to_complete: 1, given_arguments: words(&["deploy"]) };
    assert_eq!(strings(complete_request(&scripts, &req)), vec!["api"]);
    let req = CompletionRequest { index_to_complete: 1, given_arguments: words(&["--completions"]) };
    assert_eq!(strings(complete_request(&scripts, &req)), vec!["bash", "zsh"]);
    let req = CompletionRequest { index_to_complete: 1, given_arguments: words(&["--list"]) };
    assert!(complete_request(&scripts, &req).is_empty());
}

// ---------------------------------------------------------------------------
// Script names
// ---------------------------------------------------------------------------

#[test]
fn next_part_follows_a_prefix() {
    let p = parts(&["deploy", "api", "prod"]);
    assert_eq!(p.try_get_next_part_after(&parts(&["deploy"])), Some(&b"api".to_vec()));
    assert_eq!(p.try_get_next_part_after(&parts(&["deploy", "api", "prod"])), None);
    assert_eq!(p.try_get_next_part_after(&parts(&["test"])), None);
}

#[test]
fn parts_are_joined_with_dots() {
    assert_eq!(script_file_name(&parts(&["deploy", "api", "prod"]), Platform::Unix), b"deploy.api.prod.sh".to_vec());
    assert_eq!(script_file_name(&parts(&["test"]), Platform::Windows), b"test.bat".to_vec());
}

#[test]
fn file_names_give_back_the_parts() {
    let p = script_parts_from_file_name(b"deploy.api.prod.sh", Platform::Unix).unwrap();
    assert!(p.same_parts(&parts(&["deploy", "api", "prod"])));
    let name = script_file_name(&p, Platform::Unix);
    assert_eq!(name, b"deploy.api.prod.sh".to_vec());
    assert!(script_parts_from_file_name(b"deploy.sh", Platform::Windows).is_none());
    assert!(script_parts_from_file_name(b".sh", Platform::Unix).is_none());
    assert!(script_parts_from_file_name(b"notes.txt", Platform::Unix).is_none());
    let q = script_parts_from_file_name(b"a..b.bat", Platform::Windows).unwrap();
    assert!(q.same_parts(&parts(&["a", "", "b"])));
}

#[test]
fn find_script_takes_the_first_match() {
    let names = words(&["test.sh", "deploy.api.sh", "deploy.api.bat", "deploy.api.sh"]);
    assert_eq!(find_script(&names, &parts(&["deploy", "api"]), Platform::Unix), Some(1));
    assert_eq!(find_script(&names, &parts(&["deploy.api"]), Platform::Unix), Some(1));
    assert_eq!(find_script(&names, &parts(&["deploy", "api"]), Platform::Windows), Some(2));
    assert_eq!(find_script(&names, &parts(&["deploy"]), Platform::Unix), None);
}

#[test]
fn directories_are_scanned_in_entry_order() {
    let entries = vec![
        DirectoryEntry { name: b"b.sh".to_vec(), is_dir: false },
        DirectoryEntry { name: b"sub".to_vec(), is_dir: true },
        DirectoryEntry { name: b"notes.txt".to_vec(), is_dir: false },
        DirectoryEntry { name: b"a.x.sh".to_vec(), is_dir: false },
        DirectoryEntry { name: b"dir.sh".to_vec(), is_dir: true },
    ];
    let scan = scan_directory(&entries, Platform::Unix);
    assert_eq!(scan.subdirs, vec![1, 4]);
    assert_eq!(scan.scripts.iter().map(|s| s.entry).collect::<Vec<_>>(), vec![0, 3]);
    assert!(scan.scripts[1].parts.same_parts(&parts(&["a", "x"])));
}

#[test]
fn trim_and_lowercase_follow_std() {
    for s in ["  a b \n", "\u{3000}x\u{85}", "", " \t ", "AbC\u{c9}"] {
        assert_eq!(jao::text::trim(s), s.trim());
        assert_eq!(jao::text::to_ascii_lowercase(s), s.to_ascii_lowercase());
    }
}

#[test]
fn listing_line_shows_command_and_path() {
    let line = listing_line(&parts(&["deploy", "api"]), b"./deploy.api.sh");
    assert_eq!(line, b"deploy api \t\t ./deploy.api.sh".to_vec());
}

// ---------------------------------------------------------------------------
// Fingerprints and CI runs
// ---------------------------------------------------------------------------

#[test]
fn fingerprint_hashes_path_then_contents() {
    assert_eq!(fingerprint("", b""), EMPTY_SHA256);
    assert_eq!(fingerprint("ab", b"c"), ABC_SHA256);
    assert_eq!(fingerprint("", b"abc"), ABC_SHA256);
}

#[test]
fn hex_is_lower_case_two_digits_per_byte() {
    assert_eq!(hex_lower(&[0x00, 0x0f, 0xab, 0xff]), "000fabff");
    assert_eq!(hex_lower(&[]), "");
}

#[test]
fn normalization_trims_and_lowercases() {
    let upper = format!("  {}\n", ABC_SHA256.to_uppercase());
    assert_eq!(normalize_required_fingerprint(&upper), Ok(ABC_SHA256.to_string()));
    let once = normalize_required_fingerprint(&upper).unwrap();
    assert_eq!(normalize_required_fingerprint(&once), Ok(once.clone()));
}

#[test]
fn normalization_rejects_other_values() {
    let short = &ABC_SHA256[..63];
    assert_eq!(
        normalize_required_fingerprint(short),
        Err(JaoError::InvalidRequiredFingerprint { fingerprint: short.to_string() })
    );
    let bad = format!("{}g", &ABC_SHA256[..63]);
    assert!(normalize_required_fingerprint(&bad).is_err());
    let inner_space = format!("{} {}", &ABC_SHA256[..32], &ABC_SHA256[32..]);
    assert!(normalize_required_fingerprint(&inner_space).is_err());
}

#[test]
fn ci_runs_only_matching_scripts() {
    assert_eq!(run_script_ci(ABC_SHA256, "ab", b"c"), Ok(()));
    let printed = fingerprint("/w/x.sh", b"echo hi\n");
    assert_eq!(run_script_ci(&printed, "/w/x.sh", b"echo hi\n"), Ok(()));
    assert_eq!(
        run_script_ci(EMPTY_SHA256, "ab", b"c"),
        Err(JaoError::FingerprintMismatch {
            path: "ab".to_string(),
            expected: EMPTY_SHA256.to_string(),
            actual: ABC_SHA256.to_string(),
        })
    );
    assert_eq!(
        run_script_ci("deadbeef", "ab", b"c"),
        Err(JaoError::InvalidRequiredFingerprint { fingerprint: "deadbeef".to_string() })
    );
}

// ---------------------------------------------------------------------------
// Executing and trusting
// ---------------------------------------------------------------------------

#[test]
fn scripts_run_from_their_folder() {
    let launch = plan_script_execution("/w/tools/deploy.sh", Platform::Unix).unwrap();
    assert_eq!(launch.program, "sh");
    assert_eq!(launch.args, vec!["deploy.sh".to_string()]);
    assert_eq!(launch.working_dir, "/w/tools");
    let launch = plan_script_execution("tools/deploy.bat", Platform::Windows).unwrap();
    assert_eq!(launch.program, "cmd");
    assert_eq!(launch.args, vec!["/C".to_string(), "deploy.bat".to_string()]);
}

#[test]
fn paths_without_parent_or_name_are_refused() {
    assert_eq!(
        plan_script_execution("", Platform::Unix).unwrap_err(),
        JaoError::ScriptHasNoParent { path: String::new() }
    );
    assert_eq!(
        plan_script_execution("/", Platform::Unix).unwrap_err(),
        JaoError::ScriptHasNoParent { path: "/".to_string() }
    );
    assert_eq!(
        plan_script_execution("tools/..", Platform::Unix).unwrap_err(),
        JaoError::ScriptHasNoFileName { path: "tools/..".to_string() }
    );
}

#[test]
fn exit_status_decides_the_outcome() {
    assert_eq!(script_exit_result(true, Some(0)), Ok(()));
    assert_eq!(script_exit_result(false, Some(3)), Err(JaoError::ScriptFailed { code: Some(3) }));
    assert_eq!(script_exit_result(false, None), Err(JaoError::ScriptFailed { code: None }));
}

#[test]
fn trust_gate_asks_refuses_or_runs() {
    assert!(matches!(trust_gate(ScriptTrustState::Trusted, false, "/s.sh"), TrustGate::Run));
    match trust_gate(ScriptTrustState::Unknown, false, "/s.sh") {
        TrustGate::Refuse(e) => assert_eq!(e, JaoError::UnknownScriptNonInteractive { path: "/s.sh".to_string() }),
        other => panic!("unexpected {other:?}"),
    }
    match trust_gate(ScriptTrustState::Unknown, true, "/s.sh") {
        TrustGate::Ask { warning, prompt } => {
            assert_eq!(warning, "warning: script trust is unknown: /s.sh");
            assert_eq!(prompt, "trust and run? [y/N]: ");
        }
        other => panic!("unexpected {other:?}"),
    }
    match trust_gate(ScriptTrustState::Modified, true, "/s.sh") {
        TrustGate::Ask { warning, prompt } => {
            assert_eq!(warning, "warning: script has been modified since last trust: /s.sh");
            assert_eq!(prompt, "re-trust and run? [y/N]: ");
        }
        other => panic!("unexpected {other:?}"),
    }
}

#[test]
fn trust_answers_are_yes_or_no() {
    assert_eq!(trust_answer("y\n", "/s.sh"), Ok(()));
    assert_eq!(trust_answer("  YES ", "/s.sh"), Ok(()));
    assert_eq!(trust_answer("n", "/s.sh"), Err(JaoError::ScriptNotTrusted { path: "/s.sh".to_string() }));
    assert_eq!(trust_answer("", "/s.sh"), Err(JaoError::ScriptNotTrusted { path: "/s.sh".to_string() }));
    assert_eq!(trust_answer("yeah", "/s.sh"), Err(JaoError::ScriptNotTrusted { path: "/s.sh".to_string() }));
}

// ---------------------------------------------------------------------------
// Messages and help
// ---------------------------------------------------------------------------

#[test]
fn messages_name_the_problem() {
    assert_eq!(decimal_string(-42), "-42");
    assert_eq!(decimal_string(0), "0");
    assert_eq!(decimal_string(i32::MIN), "-2147483648");
    assert_eq!(JaoError::ScriptFailed { code: Some(2) }.message(), "script failed with exit code 2");
    assert_eq!(JaoError::ScriptNotTrusted { path: "/s".to_string() }.message(), "script not trusted: /s");
    assert_eq!(
        JaoError::FingerprintMismatch { path: "p".to_string(), expected: "e".to_string(), actual: "a".to_string() }
            .message(),
        "fingerprint mismatch for p: expected e, actual a"
    );
}

#[test]
fn styling_follows_terminal_and_environment() {
    assert!(should_style(true, false, None));
    assert!(!should_style(true, true, None));
    assert!(should_style(false, false, Some("1")));
    assert!(!should_style(false, false, Some("0")));
    assert!(!should_style(false, true, Some("1")));
}

#[test]
fn styled_help_pads_options_to_28() {
    let lines = help_lines(true);
    assert_eq!(lines.len(), help_lines(false).len());
    assert_eq!(lines[3], format!("{BOLD}{UNDERLINE}USAGE:{RESET}"));
    assert_eq!(lines[9], format!("{BOLD}{:<28}{RESET}Show this help screen", "  -h, --help"));
    assert_eq!(lines[21], format!("{GREEN}  jao --list{RESET}"));
    let plain = help_lines(false);
    assert_eq!(plain[9], "  -h, --help                Show this help screen");
}

#[test]
fn fingerprints_are_compared_exactly() {
    assert_eq!(compare_fingerprints("p", "ab".to_string(), "ab".to_string()), Ok(()));
    assert_eq!(
        compare_fingerprints("p", "ab".to_string(), "ac".to_string()),
        Err(JaoError::FingerprintMismatch { path: "p".to_string(), expected: "ab".to_string(), actual: "ac".to_string() })
    );
}

#[test]
fn launch_plan_uses_the_platform_interpreter() {
    let l = launch_plan("dir".to_string(), "x.sh".to_string(), Platform::Unix);
    assert_eq!((l.program, l.args, l.working_dir), ("sh", vec!["x.sh".to_string()], "dir".to_string()));
    let l = launch_plan("dir".to_string(), "x.bat".to_string(), Platform::Windows);
    assert_eq!((l.program, l.args), ("cmd", vec!["/C".to_string(), "x.bat".to_string()]));
}
