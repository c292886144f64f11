//! The errors that the library's decisions can end in.
use vstd::prelude::*;

use crate::text::{append_str, decimal, decimal_string};

verus! {

/// Why an action was refused or failed.
///
/// Paths are carried as the text that was shown to the user.
#[derive(Clone, Debug, PartialEq, Eq)]
pub enum JaoError {
    /// A command-line value that the library does not accept.
    InvalidArguments(&'static str),
    /// The value given to `--require-fingerprint` is not 64 hex digits.
    InvalidRequiredFingerprint { fingerprint: String },
    /// The script's fingerprint differs from the required one.
    FingerprintMismatch { path: String, expected: String, actual: String },
    /// The script path has no parent directory to run the script from.
    ScriptHasNoParent { path: String },
    /// The script path has no final file-name component.
    ScriptHasNoFileName { path: String },
    /// The script ran and reported failure; `code` is its exit code, when it had one.
    ScriptFailed { code: Option<i32> },
    /// The script is not trusted and nobody is at a terminal to confirm it.
    UnknownScriptNonInteractive { path: String },
    /// The user declined to trust the script.
    ScriptNotTrusted { path: String },
    /// No discovered script matches the command parts.
    ScriptNotFound { command: String },
}

/// Result of a library action.
pub type JaoResult<T> = Result<T, JaoError>;

/// The text printed after `error: ` for an error.
pub open spec fn message_spec(e: JaoError) -> Seq<char> {
    match e {
        JaoError::InvalidArguments(m) => m@,
        JaoError::InvalidRequiredFingerprint { fingerprint } =>
            "invalid --require-fingerprint value (expected 64 hex chars): "@ + fingerprint@,
        JaoError::FingerprintMismatch { path, expected, actual } =>
            "fingerprint mismatch for "@ + path@ + ": expected "@ + expected@ + ", actual "@ + actual@,
        JaoError::ScriptHasNoParent { path } => "script has no parent directory: "@ + path@,
        JaoError::ScriptHasNoFileName { path } => "script has no file name: "@ + path@,
        JaoError::ScriptFailed { code } => match code {
            Some(c) => "script failed with exit code "@ + decimal(c as int),
            None => "script was terminated without an exit code"@,
        },
        JaoError::UnknownScriptNonInteractive { path } =>
            "script is not trusted and cannot be confirmed without a terminal: "@ + path@,
        JaoError::ScriptNotTrusted { path } => "script not trusted: "@ + path@,
        JaoError::ScriptNotFound { command } => "no script found for: "@ + command@,
    }
}

impl JaoError {
    /// The text shown for the error (after `error: `).
    pub fn message(&self) -> (r: String)
        ensures
            r@ == message_spec(*self),
    {
        match self {
            JaoError::InvalidArguments(m) => String::from_str(m),
            JaoError::InvalidRequiredFingerprint { fingerprint } => {
                let mut s = String::from_str("invalid --require-fingerprint value (expected 64 hex chars): ");
                append_str(&mut s, fingerprint.as_str());
                s
            },
            JaoError::FingerprintMismatch { path, expected, actual } => {
                let mut s = String::from_str("fingerprint mismatch for ");
                append_str(&mut s, path.as_str());
                append_str(&mut s, ": expected ");
                append_str(&mut s, expected.as_str());
                append_str(&mut s, ", actual ");
                append_str(&mut s, actual.as_str());
                s
            },
            JaoError::ScriptHasNoParent { path } => {
                let mut s = String::from_str("script has no parent directory: ");
                append_str(&mut s, path.as_str());
                s
            },
            JaoError::ScriptHasNoFileName { path } => {
                let mut s = String::from_str("script has no file name: ");
                append_str(&mut s, path.as_str());
                s
            },
            JaoError::ScriptFailed { code } => match code {
                Some(c) => {
                    let mut s = String::from_str("script failed with exit code ");
                    let digits = decimal_string(*c);
                    append_str(&mut s, digits.as_str());
                    s
                },
                None => String::from_str("script was terminated without an exit code"),
            },
            JaoError::UnknownScriptNonInteractive { path } => {
                let mut s = String::from_str("script is not trusted and cannot be confirmed without a terminal: ");
                append_str(&mut s, path.as_str());
                s
            },
            JaoError::ScriptNotTrusted { path } => {
                let mut s = String::from_str("script not trusted: ");
                append_str(&mut s, path.as_str());
                s
            },
            JaoError::ScriptNotFound { command } => {
                let mut s = String::from_str("no script found for: ");
                append_str(&mut s, command.as_str());
                s
            },
        }
    }
}

} // verus!
