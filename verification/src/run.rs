//! Running scripts: the checks made before a script is executed and the
//! reading of its outcome.
use vstd::prelude::*;
use vstd::string::StringSliceAdditionalSpecFns;

use crate::error::{JaoError, JaoResult};
use crate::scripts::Platform;
use crate::fingerprint::{fingerprint, fingerprint_spec, is_fingerprint_text, is_lower_hex_char};
use crate::text::{
    all_hex_digits, all_white_space, ascii_lower, ascii_lowercase, ascii_upper, ascii_uppercase, is_hex_char, is_white_space, str_equal, to_ascii_lowercase,
    trim, trim_end, trim_start, trimmed,
};

verus! {

// ---------------------------------------------------------------------------
// Required fingerprints
// ---------------------------------------------------------------------------

/// The value of `--require-fingerprint` as it is compared: without surrounding
/// white space and in ASCII lower case.
pub open spec fn normalized_fingerprint(s: Seq<char>) -> Seq<char> {
    ascii_lowercase(trimmed(s))
}

/// A normalized value that is accepted: exactly 64 hexadecimal digits.
pub open spec fn is_valid_required_fingerprint(t: Seq<char>) -> bool {
    t.len() == 64 && forall|i: int| 0 <= i < t.len() ==> is_hex_char(#[trigger] t[i])
}

/// The error for a `--require-fingerprint` value `s` that is not accepted.
pub open spec fn is_invalid_fingerprint_error(e: JaoError, s: Seq<char>) -> bool {
    e matches JaoError::InvalidRequiredFingerprint { fingerprint } && fingerprint@ == s
}

/// Trims white space and lower-cases the value of `--require-fingerprint`,
/// and accepts it only when it is then exactly 64 hexadecimal digits.
pub fn normalize_required_fingerprint(fingerprint: &str) -> (r: JaoResult<String>)
    ensures
        r is Ok <==> is_valid_required_fingerprint(normalized_fingerprint(fingerprint@)),
        r matches Ok(t) ==> t@ == normalized_fingerprint(fingerprint@),
        r matches Err(e) ==> is_invalid_fingerprint_error(e, fingerprint@),
{
    let trimmed_value = trim(fingerprint);
    let normalized = to_ascii_lowercase(trimmed_value);
    let is_valid = normalized.as_str().unicode_len() == 64 && all_hex_digits(normalized.as_str());
    if is_valid {
        Ok(normalized)
    } else {
        Err(JaoError::InvalidRequiredFingerprint { fingerprint: String::from_str(fingerprint) })
    }
}

/// The error for a script whose fingerprint `actual` differs from `expected`.
pub open spec fn is_mismatch_error(e: JaoError, path: Seq<char>, expected: Seq<char>, actual: Seq<char>) -> bool {
    e matches JaoError::FingerprintMismatch { path: p, expected: x, actual: a } && p@ == path && x@
        == expected && a@ == actual
}

/// Decides whether a script may run in CI mode: the required fingerprint must
/// be well formed, and must equal the fingerprint of the script, computed from
/// its canonical path and its contents. `Ok` means the script may be executed.
pub fn run_script_ci(required_fingerprint: &str, canonical_path: &str, contents: &[u8]) -> (r: JaoResult<()>)
    ensures
        !is_valid_required_fingerprint(normalized_fingerprint(required_fingerprint@)) ==> (r matches Err(e)
            && is_invalid_fingerprint_error(e, required_fingerprint@)),
        is_valid_required_fingerprint(normalized_fingerprint(required_fingerprint@))
            && fingerprint_spec(canonical_path.spec_bytes(), contents@) != normalized_fingerprint(
            required_fingerprint@,
        ) ==> (r matches Err(e) && is_mismatch_error(
            e,
            canonical_path@,
            normalized_fingerprint(required_fingerprint@),
            fingerprint_spec(canonical_path.spec_bytes(), contents@),
        )),
        is_valid_required_fingerprint(normalized_fingerprint(required_fingerprint@))
            && fingerprint_spec(canonical_path.spec_bytes(), contents@) == normalized_fingerprint(
            required_fingerprint@,
        ) ==> r is Ok,
{
    let required = match normalize_required_fingerprint(required_fingerprint) {
        Ok(t) => t,
        Err(e) => {
            return Err(e);
        },
    };
    let actual = fingerprint(canonical_path, contents);
    compare_fingerprints(canonical_path, required, actual)
}

/// Compares the fingerprint `actual` of the script at `canonical_path` with
/// the required fingerprint `expected`: `Ok` when they are equal, else the
/// mismatch, naming the script and both fingerprints.
pub fn compare_fingerprints(canonical_path: &str, expected: String, actual: String) -> (r: JaoResult<()>)
    ensures
        expected@ == actual@ ==> r is Ok,
        expected@ != actual@ ==> (r matches Err(e) && is_mismatch_error(e, canonical_path@, expected@, actual@)),
{
    if !str_equal(actual.as_str(), expected.as_str()) {
        return Err(JaoError::FingerprintMismatch { path: String::from_str(canonical_path), expected, actual });
    }
    Ok(())
}

// ---------------------------------------------------------------------------
// Executing a script
// ---------------------------------------------------------------------------

/// The directory that contains the path's last component, as `Path::parent`
/// finds it. The path is split by the rules of the system the library is built
/// for, whatever platform a script is planned for.
pub uninterp spec fn path_parent(path: Seq<char>) -> Option<Seq<char>>;

/// The path's last component, as `Path::file_name` finds it, by the rules of
/// the system the library is built for.
pub uninterp spec fn path_file_name(path: Seq<char>) -> Option<Seq<char>>;

/// `Path::parent`: the path without its final component, if there is one;
/// there is none for the empty path and for a path that ends in a root.
#[verifier::external_body]
fn parent_of(path: &str) -> (r: Option<String>)
    ensures
        match r {
            Some(d) => path_parent(path@) == Some(d@),
            None => path_parent(path@) is None,
        },
        path@.len() == 0 ==> r is None,
{
    match std::path::Path::new(path).parent() {
        Some(p) => Some(p.to_string_lossy().into_owned()),
        None => None,
    }
}

/// `Path::file_name`: the final component of the path, if there is one; there
/// is none when the path ends in `..`.
#[verifier::external_body]
fn file_name_of(path: &str) -> (r: Option<String>)
    ensures
        match r {
            Some(f) => path_file_name(path@) == Some(f@),
            None => path_file_name(path@) is None,
        },
{
    match std::path::Path::new(path).file_name() {
        Some(f) => Some(f.to_string_lossy().into_owned()),
        None => None,
    }
}

/// How to start a script: the interpreter, its arguments, and the directory
/// to run it in (the script's own folder).
#[derive(Debug)]
pub struct ScriptLaunch {
    pub program: &'static str,
    pub args: Vec<String>,
    pub working_dir: String,
}

/// The interpreter that runs the platform's scripts.
pub open spec fn interpreter(platform: Platform) -> Seq<char> {
    match platform {
        Platform::Unix => "sh"@,
        Platform::Windows => "cmd"@,
    }
}

/// The arguments that run the script file `file` on the platform.
pub open spec fn interpreter_args(platform: Platform, file: Seq<char>) -> Seq<Seq<char>> {
    match platform {
        Platform::Unix => seq![file],
        Platform::Windows => seq!["/C"@, file],
    }
}

/// The error for a script path `path` that has no parent directory.
pub open spec fn is_no_parent_error(e: JaoError, path: Seq<char>) -> bool {
    e matches JaoError::ScriptHasNoParent { path: p } && p@ == path
}

/// The error for a script path `path` that has no file name.
pub open spec fn is_no_file_name_error(e: JaoError, path: Seq<char>) -> bool {
    e matches JaoError::ScriptHasNoFileName { path: p } && p@ == path
}

/// The views of a vector of strings.
pub open spec fn string_views(v: Seq<String>) -> Seq<Seq<char>> {
    v.map_values(|s: String| s@)
}

/// Works out how to run the script at `script_path`: from its own folder,
/// handing its file name to the platform's interpreter (`sh <file>` on Unix,
/// `cmd /C <file>` on Windows). The folder and file name are found by the path
/// rules of the system the library is built for, not by `platform`.
pub fn plan_script_execution(script_path: &str, platform: Platform) -> (r: JaoResult<ScriptLaunch>)
    ensures
        path_parent(script_path@) is None ==> (r matches Err(e) && is_no_parent_error(e, script_path@)),
        path_parent(script_path@) is Some && path_file_name(script_path@) is None ==> (r matches Err(e)
            && is_no_file_name_error(e, script_path@)),
        path_parent(script_path@) is Some && path_file_name(script_path@) is Some ==> (r matches Ok(l) && {
            &&& Some(l.working_dir@) == path_parent(script_path@)
            &&& l.program@ == interpreter(platform)
            &&& string_views(l.args@) == interpreter_args(platform, path_file_name(script_path@)->0)
        }),
{
    let script_dir = match parent_of(script_path) {
        Some(d) => d,
        None => {
            return Err(JaoError::ScriptHasNoParent { path: String::from_str(script_path) });
        },
    };
    let script_file = match file_name_of(script_path) {
        Some(f) => f,
        None => {
            return Err(JaoError::ScriptHasNoFileName { path: String::from_str(script_path) });
        },
    };
    Ok(launch_plan(script_dir, script_file, platform))
}

/// How to run the script file `script_file` from the directory `script_dir`
/// on the platform.
pub fn launch_plan(script_dir: String, script_file: String, platform: Platform) -> (l: ScriptLaunch)
    ensures
        l.working_dir@ == script_dir@,
        l.program@ == interpreter(platform),
        string_views(l.args@) == interpreter_args(platform, script_file@),
{
    let ghost file = script_file@;
    let mut args: Vec<String> = Vec::new();
    let program = match platform {
        Platform::Unix => {
            args.push(script_file);
            assert(string_views(args@) =~= seq![file]);
            "sh"
        },
        Platform::Windows => {
            args.push(String::from_str("/C"));
            args.push(script_file);
            assert(string_views(args@) =~= seq!["/C"@, file]);
            "cmd"
        },
    };
    ScriptLaunch { program, args, working_dir: script_dir }
}

/// The outcome of a script run: success, or the failure with the exit code
/// when the script had one.
pub fn script_exit_result(success: bool, code: Option<i32>) -> (r: JaoResult<()>)
    ensures
        success ==> r is Ok,
        !success ==> r == Err::<(), JaoError>(JaoError::ScriptFailed { code }),
{
    if success {
        Ok(())
    } else {
        Err(JaoError::ScriptFailed { code })
    }
}

// ---------------------------------------------------------------------------
// Trusting a script
// ---------------------------------------------------------------------------

/// What is recorded about a script in the trust manifest.
#[derive(Clone, Copy, Debug, PartialEq, Eq)]
pub enum ScriptTrustState {
    /// Trusted with its current contents.
    Trusted,
    /// Never trusted.
    Unknown,
    /// Trusted once, but changed since.
    Modified,
}

/// What to do with a script before running it.
#[derive(Debug)]
pub enum TrustGate {
    /// Run it.
    Run,
    /// Refuse it with the error.
    Refuse(JaoError),
    /// Print the warning on its own line, then the prompt, and read the answer.
    Ask { warning: String, prompt: &'static str },
}

/// The model of a [`TrustGate`].
pub enum TrustGateModel {
    Run,
    Refuse(JaoError),
    Ask(Seq<char>, Seq<char>),
}

impl View for TrustGate {
    type V = TrustGateModel;

    open spec fn view(&self) -> TrustGateModel {
        match self {
            TrustGate::Run => TrustGateModel::Run,
            TrustGate::Refuse(e) => TrustGateModel::Refuse(*e),
            TrustGate::Ask { warning, prompt } => TrustGateModel::Ask(warning@, prompt@),
        }
    }
}

/// Decides whether a script may run without asking, must be refused, or
/// needs the user's confirmation, from its trust state.
pub fn trust_gate(state: ScriptTrustState, interactive: bool, canonical_path: &str) -> (r: TrustGate)
    ensures
        state == ScriptTrustState::Trusted ==> r@ == TrustGateModel::Run,
        state != ScriptTrustState::Trusted && !interactive ==> (r matches TrustGate::Refuse(
            JaoError::UnknownScriptNonInteractive { path },
        ) && path@ == canonical_path@),
        state == ScriptTrustState::Unknown && interactive ==> r@ == TrustGateModel::Ask(
            "warning: script trust is unknown: "@ + canonical_path@,
            "trust and run? [y/N]: "@,
        ),
        state == ScriptTrustState::Modified && interactive ==> r@ == TrustGateModel::Ask(
            "warning: script has been modified since last trust: "@ + canonical_path@,
            "re-trust and run? [y/N]: "@,
        ),
{
    match state {
        ScriptTrustState::Trusted => TrustGate::Run,
        ScriptTrustState::Unknown | ScriptTrustState::Modified => {
            if !interactive {
                return TrustGate::Refuse(
                    JaoError::UnknownScriptNonInteractive { path: String::from_str(canonical_path) },
                );
            }
            match state {
                ScriptTrustState::Unknown => TrustGate::Ask {
                    warning: crate::text::concat_str("warning: script trust is unknown: ", canonical_path),
                    prompt: "trust and run? [y/N]: ",
                },
                _ => TrustGate::Ask {
                    warning: crate::text::concat_str(
                        "warning: script has been modified since last trust: ",
                        canonical_path,
                    ),
                    prompt: "re-trust and run? [y/N]: ",
                },
            }
        },
    }
}

/// The answer confirms trust: without surrounding white space and in ASCII
/// lower case it is `y` or `yes`.
pub open spec fn is_confirmation(answer: Seq<char>) -> bool {
    ascii_lowercase(trimmed(answer)) == "y"@ || ascii_lowercase(trimmed(answer)) == "yes"@
}

/// Reads the user's answer to the trust prompt: `Ok` lets the script be
/// trusted and run; anything but `y` or `yes` refuses it.
pub fn trust_answer(answer: &str, canonical_path: &str) -> (r: JaoResult<()>)
    ensures
        r is Ok <==> is_confirmation(answer@),
        r matches Err(e) ==> (e matches JaoError::ScriptNotTrusted { path } && path@ == canonical_path@),
{
    let answer = to_ascii_lowercase(trim(answer));
    if str_equal(answer.as_str(), "y") || str_equal(answer.as_str(), "yes") {
        Ok(())
    } else {
        Err(JaoError::ScriptNotTrusted { path: String::from_str(canonical_path) })
    }
}

// ---------------------------------------------------------------------------
// Laws of normalization
// ---------------------------------------------------------------------------

/// `trim_start` keeps a suffix of its argument that is empty or begins with a
/// character that is not white space.
proof fn lemma_trim_start(s: Seq<char>)
    ensures
        trim_start(s).len() <= s.len(),
        trim_start(s) == s.skip(s.len() - trim_start(s).len()),
        trim_start(s).len() > 0 ==> !is_white_space(trim_start(s)[0]),
    decreases s.len(),
{
    if s.len() > 0 && is_white_space(s[0]) {
        lemma_trim_start(s.drop_first());
        assert(s.drop_first().skip(s.drop_first().len() - trim_start(s).len()) =~= s.skip(
            s.len() - trim_start(s).len(),
        ));
    } else {
        assert(s.skip(0) =~= s);
    }
}

/// `trim_end` keeps a prefix of its argument that is empty or ends with a
/// character that is not white space.
proof fn lemma_trim_end(s: Seq<char>)
    ensures
        trim_end(s).len() <= s.len(),
        trim_end(s) == s.take(trim_end(s).len() as int),
        trim_end(s).len() > 0 ==> !is_white_space(trim_end(s).last()),
    decreases s.len(),
{
    if s.len() > 0 && is_white_space(s.last()) {
        lemma_trim_end(s.drop_last());
        assert(s.drop_last().take(trim_end(s).len() as int) =~= s.take(trim_end(s).len() as int));
    } else {
        assert(s.take(s.len() as int) =~= s);
    }
}

/// A trimmed text neither begins nor ends with white space.
proof fn lemma_trimmed_ends(s: Seq<char>)
    ensures
        trimmed(s).len() > 0 ==> !is_white_space(trimmed(s)[0]) && !is_white_space(trimmed(s).last()),
{
    lemma_trim_start(s);
    let t = trim_start(s);
    lemma_trim_end(t);
    if trimmed(s).len() > 0 {
        assert(trimmed(s)[0] == t.take(trimmed(s).len() as int)[0]);
    }
}

/// A text that neither begins nor ends with white space is its own trimmed form.
proof fn lemma_trimmed_unchanged(s: Seq<char>)
    requires
        s.len() > 0 ==> !is_white_space(s[0]) && !is_white_space(s.last()),
    ensures
        trimmed(s) == s,
{
}

/// Lower-casing neither makes nor unmakes white space.
proof fn lemma_lower_white_space(c: char)
    ensures
        is_white_space(ascii_lower(c)) == is_white_space(c),
{
}

/// Normalizing a normalized value changes nothing: a value that
/// `normalize_required_fingerprint` returned is accepted again, unchanged.
pub proof fn law_normalization_idempotent(s: Seq<char>)
    ensures
        normalized_fingerprint(normalized_fingerprint(s)) == normalized_fingerprint(s),
{
    let t = trimmed(s);
    let n = ascii_lowercase(t);
    lemma_trimmed_ends(s);
    if n.len() > 0 {
        lemma_lower_white_space(t[0]);
        lemma_lower_white_space(t.last());
        assert(n[0] == ascii_lower(t[0]));
        assert(n.last() == ascii_lower(t.last()));
    }
    lemma_trimmed_unchanged(n);
    assert(ascii_lowercase(n) =~= n);
}

/// Leading white space does not change what `trim_start` keeps.
proof fn lemma_trim_start_skips(a: Seq<char>, x: Seq<char>)
    requires
        all_white_space(a),
    ensures
        trim_start(a + x) == trim_start(x),
    decreases a.len(),
{
    if a.len() > 0 {
        assert((a + x)[0] == a[0]);
        assert((a + x).drop_first() =~= a.drop_first() + x);
        assert(all_white_space(a.drop_first())) by {
            assert forall|i: int| 0 <= i < a.drop_first().len() implies is_white_space(#[trigger] a.drop_first()[i]) by {
                assert(a.drop_first()[i] == a[i + 1]);
            }
        }
        lemma_trim_start_skips(a.drop_first(), x);
    } else {
        assert(a + x =~= x);
    }
}

/// Trailing white space does not change what `trim_end` keeps.
proof fn lemma_trim_end_skips(y: Seq<char>, b: Seq<char>)
    requires
        all_white_space(b),
    ensures
        trim_end(y + b) == trim_end(y),
    decreases b.len(),
{
    if b.len() > 0 {
        assert((y + b).last() == b.last());
        assert((y + b).drop_last() =~= y + b.drop_last());
        assert(all_white_space(b.drop_last())) by {
            assert forall|i: int| 0 <= i < b.drop_last().len() implies is_white_space(#[trigger] b.drop_last()[i]) by {
                assert(b.drop_last()[i] == b[i]);
            }
        }
        lemma_trim_end_skips(y, b.drop_last());
    } else {
        assert(y + b =~= y);
    }
}

/// When `x` holds more than white space, `trim_start` of `x` followed by `b`
/// keeps all of `b`.
proof fn lemma_trim_start_keeps_tail(x: Seq<char>, b: Seq<char>)
    requires
        trim_start(x).len() > 0,
    ensures
        trim_start(x + b) == trim_start(x) + b,
    decreases x.len(),
{
    if x.len() > 0 && is_white_space(x[0]) {
        assert((x + b)[0] == x[0]);
        assert((x + b).drop_first() =~= x.drop_first() + b);
        lemma_trim_start_keeps_tail(x.drop_first(), b);
    } else if x.len() > 0 {
        assert((x + b)[0] == x[0]);
    }
}

/// What `trim_start` removes entirely is all white space.
proof fn lemma_trim_start_empty(x: Seq<char>)
    requires
        trim_start(x).len() == 0,
    ensures
        all_white_space(x),
    decreases x.len(),
{
    if x.len() > 0 {
        lemma_trim_start_empty(x.drop_first());
        assert forall|i: int| 0 <= i < x.len() implies is_white_space(#[trigger] x[i]) by {
            if i > 0 {
                assert(x[i] == x.drop_first()[i - 1]);
            }
        }
    }
}

/// White space before and after a text does not change its trimmed form.
proof fn lemma_trimmed_ignores_padding(a: Seq<char>, s: Seq<char>, b: Seq<char>)
    requires
        all_white_space(a),
        all_white_space(b),
    ensures
        trimmed(a + s + b) == trimmed(s),
{
    assert(a + s + b =~= a + (s + b));
    lemma_trim_start_skips(a, s + b);
    if trim_start(s).len() > 0 {
        lemma_trim_start_keeps_tail(s, b);
        lemma_trim_end_skips(trim_start(s), b);
    } else {
        lemma_trim_start_empty(s);
        assert(all_white_space(s + b)) by {
            assert forall|i: int| 0 <= i < (s + b).len() implies is_white_space(#[trigger] (s + b)[i]) by {
                if i < s.len() {
                    assert((s + b)[i] == s[i]);
                } else {
                    assert((s + b)[i] == b[i - s.len()]);
                }
            }
        }
        lemma_trim_start_skips(s + b, Seq::<char>::empty());
        assert(s + b + Seq::<char>::empty() =~= s + b);
        assert(trim_start(s + b).len() == 0);
        assert(trim_start(s + b) =~= trim_start(s));
    }
}

/// Upper-casing neither makes nor unmakes white space.
proof fn lemma_upper_white_space(c: char)
    ensures
        is_white_space(ascii_upper(c)) == is_white_space(c),
{
}

/// `trim_start` and upper-casing may be taken in either order.
proof fn lemma_trim_start_upper(s: Seq<char>)
    ensures
        trim_start(ascii_uppercase(s)) == ascii_uppercase(trim_start(s)),
    decreases s.len(),
{
    let u = ascii_uppercase(s);
    if s.len() > 0 {
        lemma_upper_white_space(s[0]);
        assert(u[0] == ascii_upper(s[0]));
        assert(u.drop_first() =~= ascii_uppercase(s.drop_first()));
        lemma_trim_start_upper(s.drop_first());
    } else {
        assert(u =~= s);
    }
}

/// `trim_end` and upper-casing may be taken in either order.
proof fn lemma_trim_end_upper(s: Seq<char>)
    ensures
        trim_end(ascii_uppercase(s)) == ascii_uppercase(trim_end(s)),
    decreases s.len(),
{
    let u = ascii_uppercase(s);
    if s.len() > 0 {
        lemma_upper_white_space(s.last());
        assert(u.last() == ascii_upper(s.last()));
        assert(u.drop_last() =~= ascii_uppercase(s.drop_last()));
        lemma_trim_end_upper(s.drop_last());
    } else {
        assert(u =~= s);
    }
}

/// Lower-casing an upper-cased character gives the lower-case form of the
/// character itself.
proof fn lemma_lower_upper(c: char)
    ensures
        ascii_lower(ascii_upper(c)) == ascii_lower(c),
{
}

/// A required fingerprint is normalized alike whatever white space surrounds
/// it and whether its ASCII letters are written in upper or lower case.
pub proof fn law_normalization_ignores_padding_and_case(a: Seq<char>, s: Seq<char>, b: Seq<char>)
    requires
        all_white_space(a),
        all_white_space(b),
    ensures
        normalized_fingerprint(a + s + b) == normalized_fingerprint(s),
        normalized_fingerprint(ascii_uppercase(s)) == normalized_fingerprint(s),
{
    lemma_trimmed_ignores_padding(a, s, b);
    lemma_trim_start_upper(s);
    lemma_trim_end_upper(trim_start(s));
    let t = trimmed(s);
    assert(trimmed(ascii_uppercase(s)) == ascii_uppercase(t));
    assert forall|i: int| 0 <= i < t.len() implies ascii_lower(ascii_upper(t[i])) == ascii_lower(t[i]) by {
        lemma_lower_upper(t[i]);
    }
    assert(ascii_lowercase(ascii_uppercase(t)) =~= ascii_lowercase(t));
}

/// Whether an answer confirms trust does not depend on the white space
/// around it or on the case of its ASCII letters: `Y`, ` yes `, `YES` all
/// confirm as `y` and `yes` do.
pub proof fn law_confirmation_ignores_padding_and_case(a: Seq<char>, s: Seq<char>, b: Seq<char>)
    requires
        all_white_space(a),
        all_white_space(b),
    ensures
        is_confirmation(a + s + b) == is_confirmation(s),
        is_confirmation(ascii_uppercase(s)) == is_confirmation(s),
{
    law_normalization_ignores_padding_and_case(a, s, b);
}

/// Without surrounding white space, an answer confirms exactly when it is
/// `y` or `yes`, each letter in either case.
pub proof fn law_confirmation_words(s: Seq<char>)
    requires
        s.len() > 0 ==> !is_white_space(s[0]) && !is_white_space(s.last()),
    ensures
        is_confirmation(s) <==> (s.len() == 1 && (s[0] == 'y' || s[0] == 'Y')) || (s.len() == 3 && (s[0] == 'y'
            || s[0] == 'Y') && (s[1] == 'e' || s[1] == 'E') && (s[2] == 's' || s[2] == 'S')),
{
    reveal_strlit("y");
    reveal_strlit("yes");
    lemma_trimmed_unchanged(s);
    let l = ascii_lowercase(s);
    assert(l.len() == s.len());
    assert("y"@ =~= seq!['y']);
    assert("yes"@ =~= seq!['y', 'e', 's']);
    if s.len() == 1 {
        lemma_lower_letter(s[0], 'y', 'Y');
        assert(l =~= seq![ascii_lower(s[0])]);
        if l == "y"@ {
            assert(l[0] == 'y');
        }
        if ascii_lower(s[0]) == 'y' {
            assert(l =~= "y"@);
        }
        assert(l != "yes"@);
    } else if s.len() == 3 {
        lemma_lower_letter(s[0], 'y', 'Y');
        lemma_lower_letter(s[1], 'e', 'E');
        lemma_lower_letter(s[2], 's', 'S');
        assert(l =~= seq![ascii_lower(s[0]), ascii_lower(s[1]), ascii_lower(s[2])]);
        assert(l != "y"@);
        if l == "yes"@ {
            assert(l[0] == 'y' && l[1] == 'e' && l[2] == 's');
        }
        if ascii_lower(s[0]) == 'y' && ascii_lower(s[1]) == 'e' && ascii_lower(s[2]) == 's' {
            assert(l =~= "yes"@);
        }
    } else {
        assert(l != "y"@);
        assert(l != "yes"@);
    }
}

/// The lower-case form of `c` is the letter `lower` exactly when `c` is
/// `lower` or its upper-case form `upper`.
proof fn lemma_lower_letter(c: char, lower: char, upper: char)
    requires
        'a' <= lower <= 'z',
        upper as u32 + 32 == lower as u32,
    ensures
        ascii_lower(c) == lower <==> (c == lower || c == upper),
{
    if 'A' <= c <= 'Z' {
        assert((((c as u32) + 32) as char) as u32 == (c as u32) + 32);
    }
}

/// A fingerprint in the form that `fingerprint` writes (64 lower-case hex
/// digits) is accepted unchanged as a required fingerprint, so `run_script_ci`
/// lets a script run when it is given that script's printed fingerprint.
pub proof fn law_printed_fingerprint_is_accepted(f: Seq<char>)
    requires
        is_fingerprint_text(f),
    ensures
        normalized_fingerprint(f) == f,
        is_valid_required_fingerprint(f),
{
    assert(is_lower_hex_char(f[0]));
    assert(is_lower_hex_char(f.last()));
    lemma_trimmed_unchanged(f);
    assert forall|i: int| 0 <= i < f.len() implies ascii_lower(f[i]) == f[i] by {
        assert(is_lower_hex_char(f[i]));
    }
    assert(ascii_lowercase(f) =~= f);
    assert forall|i: int| 0 <= i < f.len() implies is_hex_char(#[trigger] f[i]) by {
        assert(is_lower_hex_char(f[i]));
    }
}

} // verus!
