//! Discover, inspect and run workspace scripts: the verified core of `jao`.
//!
//! - `completion`: what the shell completion protocol offers for typed words.
//! - `scripts`: script command parts, script file names and listing lines.
//! - `run`: the checks before a script runs (required fingerprints, trust)
//!   and how it is launched.
//! - `fingerprint`: SHA-256 fingerprints of scripts.
//! - `help`: the help screen.
//! - `error`: the errors and their messages.
//! - `bytes`, `text`: byte-string and character-level primitives.
pub mod bytes;
pub mod completion;
pub mod error;
pub mod fingerprint;
pub mod help;
pub mod run;
pub mod scripts;
pub mod text;
