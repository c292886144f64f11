//! Completion support for shell integration and the internal completion protocol.
//!
//! `jao --completions <shell>` prints a static script that wires Bash or Zsh into
//! the hidden `jao __complete` command. That command returns one candidate per
//! line, computed here from the scripts discovered under the working directory
//! and the partially typed command words supplied by the shell.
use vstd::prelude::*;
use vstd::string::StringSliceAdditionalSpecFns;

use crate::bytes::{is_prefix, lex_lt, strictly_sorted, views, starts_with_bytes, bytes_equal, compare_bytes, LexOrder, lemma_lex_lt_transitive};
use crate::error::JaoError;
use crate::scripts::{ScriptParts, next_part_after, copy_bytes};
use crate::text::lemma_ascii_bytes;

verus! {

// ---------------------------------------------------------------------------
// Shells
// ---------------------------------------------------------------------------

/// A shell that completion scripts exist for.
#[derive(Clone, Copy, Debug, PartialEq, Eq)]
pub enum Shell {
    Bash,
    Zsh,
}

/// The name by which a shell is selected on the command line.
pub open spec fn shell_name(shell: Shell) -> Seq<u8> {
    match shell {
        Shell::Bash => "bash".spec_bytes(),
        Shell::Zsh => "zsh".spec_bytes(),
    }
}

/// The error for a shell name that is neither `bash` nor `zsh`.
pub open spec fn is_unknown_shell_error(e: JaoError) -> bool {
    e matches JaoError::InvalidArguments(m) && m@ == "Unknown shell type passed"@
}

impl Shell {
    /// Selects a shell by its name.
    pub fn try_from(shell_str: &[u8]) -> (r: Result<Shell, JaoError>)
        ensures
            shell_str@ == "bash".spec_bytes() ==> r == Ok::<Shell, JaoError>(Shell::Bash),
            shell_str@ == "zsh".spec_bytes() && shell_str@ != "bash".spec_bytes()
                ==> r == Ok::<Shell, JaoError>(Shell::Zsh),
            shell_str@ != "bash".spec_bytes() && shell_str@ != "zsh".spec_bytes()
                ==> (r matches Err(e) && is_unknown_shell_error(e)),
    {
        if bytes_equal(shell_str, "bash".as_bytes()) {
            return Ok(Shell::Bash);
        }
        if bytes_equal(shell_str, "zsh".as_bytes()) {
            return Ok(Shell::Zsh);
        }
        Err(JaoError::InvalidArguments("Unknown shell type passed"))
    }

    /// The shell's command-line name.
    pub fn name(&self) -> (r: &'static str)
        ensures
            r.spec_bytes() == shell_name(*self),
    {
        match self {
            Shell::Bash => "bash",
            Shell::Zsh => "zsh",
        }
    }
}

// ---------------------------------------------------------------------------
// Completion context
// ---------------------------------------------------------------------------

/// Where the scan of the typed words stands.
#[derive(Clone, Copy, Debug, PartialEq, Eq)]
pub enum ParseMode {
    /// Still among the options before the script command.
    TopLevel,
    /// Every further word is a part of the script command.
    ScriptParts,
}

/// What kind of word is being completed.
#[derive(Debug)]
pub enum CompletionContext {
    /// An option, starting with `-`.
    Options { word_being_typed: Vec<u8> },
    /// The value of `--completions`.
    Shells { word_being_typed: Vec<u8> },
    /// The next part of a script command, after `prior_parts`.
    Scripts { word_being_typed: Vec<u8>, prior_parts: ScriptParts },
    /// A position that completion does not cover.
    Unsupported,
}

/// The mathematical content of a [`CompletionContext`].
pub enum ContextModel {
    Options(Seq<u8>),
    Shells(Seq<u8>),
    Scripts(Seq<Seq<u8>>, Seq<u8>),
    Unsupported,
}

impl View for CompletionContext {
    type V = ContextModel;

    open spec fn view(&self) -> ContextModel {
        match self {
            CompletionContext::Options { word_being_typed } => ContextModel::Options(word_being_typed@),
            CompletionContext::Shells { word_being_typed } => ContextModel::Shells(word_being_typed@),
            CompletionContext::Scripts { word_being_typed, prior_parts } => ContextModel::Scripts(
                prior_parts@,
                word_being_typed@,
            ),
            CompletionContext::Unsupported => ContextModel::Unsupported,
        }
    }
}

/// The state of the left-to-right scan over the words before the cursor.
pub struct ScanState {
    pub mode: ParseMode,
    pub prior: Seq<Seq<u8>>,
    pub expects_fingerprint_value: bool,
    pub expects_shell_value: bool,
    /// A word was met after which nothing can be completed.
    pub halted: bool,
}

/// The scan before any word.
pub open spec fn scan_start() -> ScanState {
    ScanState {
        mode: ParseMode::TopLevel,
        prior: Seq::empty(),
        expects_fingerprint_value: false,
        expects_shell_value: false,
        halted: false,
    }
}

/// One word of the scan.
///
/// The word after `--require-fingerprint` is its value and is skipped; a word
/// after `--completions` ends completion; `--fingerprint` and the first word
/// that is not an option start the script command; `--list`, `--help` and
/// `--version` end completion; other words starting with `-` are passed over.
pub open spec fn scan_step(st: ScanState, w: Seq<u8>) -> ScanState {
    if st.halted {
        st
    } else if st.expects_fingerprint_value {
        ScanState { expects_fingerprint_value: false, ..st }
    } else if st.expects_shell_value {
        ScanState { halted: true, ..st }
    } else if st.mode == ParseMode::ScriptParts {
        ScanState { prior: st.prior.push(w), ..st }
    } else if w == "--ci".spec_bytes() {
        st
    } else if w == "--fingerprint".spec_bytes() {
        ScanState { mode: ParseMode::ScriptParts, ..st }
    } else if w == "--require-fingerprint".spec_bytes() {
        ScanState { expects_fingerprint_value: true, ..st }
    } else if w == "--completions".spec_bytes() {
        ScanState { expects_shell_value: true, ..st }
    } else if w == "--list".spec_bytes() || w == "--help".spec_bytes() || w
        == "--version".spec_bytes() {
        ScanState { halted: true, ..st }
    } else if is_prefix("-".spec_bytes(), w) {
        st
    } else {
        ScanState { mode: ParseMode::ScriptParts, prior: st.prior.push(w), ..st }
    }
}

/// The scan over the first `n` words.
pub open spec fn scan_prefix(words: Seq<Seq<u8>>, n: nat) -> ScanState
    decreases n,
{
    if n == 0 {
        scan_start()
    } else {
        scan_step(scan_prefix(words, (n - 1) as nat), words[n - 1])
    }
}

/// The word under the cursor: the word at `current_index`, or empty past the end.
pub open spec fn word_at(words: Seq<Seq<u8>>, current_index: int) -> Seq<u8> {
    if current_index < words.len() {
        words[current_index]
    } else {
        Seq::empty()
    }
}

/// What is being completed when the cursor is on word `current_index`.
pub open spec fn completion_context_spec(words: Seq<Seq<u8>>, current_index: int) -> ContextModel {
    let n = if current_index < words.len() { current_index } else { words.len() as int };
    let st = scan_prefix(words, n as nat);
    let typed = word_at(words, current_index);
    if st.halted || st.expects_fingerprint_value {
        ContextModel::Unsupported
    } else if st.expects_shell_value {
        ContextModel::Shells(typed)
    } else if st.mode == ParseMode::TopLevel && is_prefix("-".spec_bytes(), typed) {
        ContextModel::Options(typed)
    } else {
        ContextModel::Scripts(st.prior, typed)
    }
}

/// Once halted, the scan stays halted.
pub proof fn lemma_halted_persists(words: Seq<Seq<u8>>, k: nat, j: nat)
    requires
        scan_prefix(words, k).halted,
        k <= j,
    ensures
        scan_prefix(words, j).halted,
    decreases j - k,
{
    if k < j {
        lemma_halted_persists(words, k, (j - 1) as nat);
    }
}

/// Determines what the word at `current_index` is, from the words before it.
pub fn completion_context(words: &Vec<Vec<u8>>, current_index: usize) -> (r: CompletionContext)
    ensures
        r@ == completion_context_spec(views(words@), current_index as int),
{
    let ghost ws = views(words@);
    let n: usize = if current_index < words.len() { current_index } else { words.len() };
    let mut mode = ParseMode::TopLevel;
    let mut prior_parts = ScriptParts::new();
    let mut expects_require_fingerprint_value = false;
    let mut expects_shell_value = false;
    let mut i: usize = 0;
    while i < n
        invariant
            ws == views(words@),
            n <= words@.len(),
            n == (if current_index < words@.len() { current_index as int } else { words@.len() as int }),
            i <= n,
            scan_prefix(ws, i as nat).mode == mode,
            scan_prefix(ws, i as nat).prior == prior_parts@,
            scan_prefix(ws, i as nat).expects_fingerprint_value == expects_require_fingerprint_value,
            scan_prefix(ws, i as nat).expects_shell_value == expects_shell_value,
            !scan_prefix(ws, i as nat).halted,
        decreases n - i,
    {
        let word = words[i].as_slice();
        assert(word@ == ws[i as int]);
        if expects_require_fingerprint_value {
            expects_require_fingerprint_value = false;
        } else if expects_shell_value {
            // `--completions` consumes exactly one value, so any later position
            // is outside the supported completion surface.
            proof {
                lemma_halted_persists(ws, (i + 1) as nat, n as nat);
            }
            return CompletionContext::Unsupported;
        } else {
            match mode {
                ParseMode::TopLevel => {
                    if bytes_equal(word, "--ci".as_bytes()) {
                    } else if bytes_equal(word, "--fingerprint".as_bytes()) {
                        mode = ParseMode::ScriptParts;
                    } else if bytes_equal(word, "--require-fingerprint".as_bytes()) {
                        expects_require_fingerprint_value = true;
                    } else if bytes_equal(word, "--completions".as_bytes()) {
                        expects_shell_value = true;
                    } else if bytes_equal(word, "--list".as_bytes()) || bytes_equal(
                        word,
                        "--help".as_bytes(),
                    ) || bytes_equal(word, "--version".as_bytes()) {
                        proof {
                            lemma_halted_persists(ws, (i + 1) as nat, n as nat);
                        }
                        return CompletionContext::Unsupported;
                    } else if starts_with_bytes(word, "-".as_bytes()) {
                    } else {
                        mode = ParseMode::ScriptParts;
                        prior_parts.push(word);
                    }
                },
                ParseMode::ScriptParts => {
                    prior_parts.push(word);
                },
            }
        }
        i = i + 1;
    }
    if expects_require_fingerprint_value {
        return CompletionContext::Unsupported;
    }
    let word_being_typed: Vec<u8> = if current_index < words.len() {
        copy_bytes(words[current_index].as_slice())
    } else {
        Vec::new()
    };
    assert(word_being_typed@ == word_at(ws, current_index as int));
    if expects_shell_value {
        return CompletionContext::Shells { word_being_typed };
    }
    match mode {
        ParseMode::TopLevel => {
            if starts_with_bytes(word_being_typed.as_slice(), "-".as_bytes()) {
                CompletionContext::Options { word_being_typed }
            } else {
                CompletionContext::Scripts { prior_parts, word_being_typed }
            }
        },
        ParseMode::ScriptParts => CompletionContext::Scripts { prior_parts, word_being_typed },
    }
}

// ---------------------------------------------------------------------------
// Candidates
// ---------------------------------------------------------------------------

/// The options that completion offers, in the order they are offered.
pub open spec fn static_option_names() -> Seq<&'static str> {
    seq![
        "--help",
        "--version",
        "--list",
        "--ci",
        "--fingerprint",
        "--require-fingerprint",
        "--completions",
    ]
}

/// The shells that completion offers, in the order they are offered.
pub open spec fn shell_names() -> Seq<&'static str> {
    seq!["bash", "zsh"]
}

/// The bytes of each name.
pub open spec fn name_bytes(names: Seq<&'static str>) -> Seq<Seq<u8>> {
    names.map_values(|s: &'static str| s.spec_bytes())
}

/// The candidates that begin with `prefix`, in the order they are given.
pub open spec fn matching(cands: Seq<Seq<u8>>, prefix: Seq<u8>) -> Seq<Seq<u8>> {
    cands.filter(|c: Seq<u8>| is_prefix(prefix, c))
}

/// The names among `names` that begin with `prefix`, in order.
fn filter_by_prefix(names: &Vec<&'static str>, prefix: &[u8]) -> (r: Vec<Vec<u8>>)
    ensures
        views(r@) == matching(name_bytes(names@), prefix@),
{
    let ghost pred = |c: Seq<u8>| is_prefix(prefix@, c);
    let ghost all = name_bytes(names@);
    let mut out: Vec<Vec<u8>> = Vec::new();
    let mut i: usize = 0;
    assert(all.take(0) =~= Seq::<Seq<u8>>::empty());
    assert(views(out@) =~= Seq::<Seq<u8>>::empty());
    proof {
        reveal(Seq::filter);
    }
    while i < names.len()
        invariant
            i <= names@.len(),
            all == name_bytes(names@),
            pred == (|c: Seq<u8>| is_prefix(prefix@, c)),
            views(out@) == all.take(i as int).filter(pred),
        decreases names@.len() - i,
    {
        let name: &[u8] = names[i].as_bytes();
        let ghost before = out@;
        assert(all.take(i + 1) =~= all.take(i as int).push(name@));
        proof {
            all.take(i as int).lemma_filter_push(name@, pred);
        }
        if starts_with_bytes(name, prefix) {
            out.push(copy_bytes(name));
            assert(views(out@) =~= views(before).push(name@));
        }
        i = i + 1;
    }
    assert(all.take(names@.len() as int) =~= all);
    out
}

/// The options that begin with `prefix`.
pub fn complete_options(prefix: &[u8]) -> (r: Vec<Vec<u8>>)
    ensures
        views(r@) == matching(name_bytes(static_option_names()), prefix@),
{
    let names: Vec<&'static str> = vec![
        "--help",
        "--version",
        "--list",
        "--ci",
        "--fingerprint",
        "--require-fingerprint",
        "--completions",
    ];
    assert(names@ =~= static_option_names());
    filter_by_prefix(&names, prefix)
}

/// The shell names that begin with `prefix`.
pub fn complete_shells(prefix: &[u8]) -> (r: Vec<Vec<u8>>)
    ensures
        views(r@) == matching(name_bytes(shell_names()), prefix@),
{
    let names: Vec<&'static str> = vec!["bash", "zsh"];
    assert(names@ =~= shell_names());
    filter_by_prefix(&names, prefix)
}

/// The parts of each script.
pub open spec fn script_views(scripts: Seq<ScriptParts>) -> Seq<Seq<Seq<u8>>> {
    scripts.map_values(|s: ScriptParts| s@)
}

/// Script `parts` offers `c` after `prior` while `word` is typed.
pub open spec fn offers(parts: Seq<Seq<u8>>, prior: Seq<Seq<u8>>, word: Seq<u8>, c: Seq<u8>) -> bool {
    next_part_after(parts, prior) == Some(c) && is_prefix(word, c)
}

/// One of the first `upto` scripts offers `c`.
pub open spec fn offered_by_some(
    scripts: Seq<Seq<Seq<u8>>>,
    upto: int,
    prior: Seq<Seq<u8>>,
    word: Seq<u8>,
    c: Seq<u8>,
) -> bool {
    exists|k: int| 0 <= k < upto && #[trigger] offers(scripts[k], prior, word, c)
}

/// `out` is exactly the candidates that the scripts offer, sorted, each once.
pub open spec fn is_script_completion(
    out: Seq<Seq<u8>>,
    scripts: Seq<Seq<Seq<u8>>>,
    prior: Seq<Seq<u8>>,
    word: Seq<u8>,
) -> bool {
    &&& strictly_sorted(out)
    &&& forall|c: Seq<u8>| out.contains(c) <==> offered_by_some(scripts, scripts.len() as int, prior, word, c)
}

/// Where `x` belongs in the sorted `v`: every element before the slot is below
/// `x`; the flag says whether the element at the slot is `x` itself.
fn find_slot(v: &Vec<Vec<u8>>, x: &[u8]) -> (r: (usize, bool))
    requires
        strictly_sorted(views(v@)),
    ensures
        r.0 <= v@.len(),
        forall|k: int| 0 <= k < r.0 ==> lex_lt(#[trigger] views(v@)[k], x@),
        r.1 ==> r.0 < v@.len() && views(v@)[r.0 as int] == x@,
        !r.1 ==> (r.0 < v@.len() ==> lex_lt(x@, views(v@)[r.0 as int])),
{
    let mut i: usize = 0;
    while i < v.len()
        invariant
            i <= v@.len(),
            forall|k: int| 0 <= k < i ==> lex_lt(#[trigger] views(v@)[k], x@),
        decreases v@.len() - i,
    {
        let c = compare_bytes(v[i].as_slice(), x);
        match c {
            LexOrder::Less => {},
            LexOrder::Equal => {
                return (i, true);
            },
            LexOrder::Greater => {
                return (i, false);
            },
        }
        i = i + 1;
    }
    (i, false)
}

/// Adds `x` to the sorted set `v`, keeping it sorted and free of repeats.
fn insert_sorted(v: &mut Vec<Vec<u8>>, x: &[u8])
    requires
        strictly_sorted(views(old(v)@)),
    ensures
        strictly_sorted(views(final(v)@)),
        forall|y: Seq<u8>| views(final(v)@).contains(y) <==> (views(old(v)@).contains(y) || y == x@),
{
    let ghost vs = views(v@);
    let (pos, found) = find_slot(v, x);
    if found {
        assert forall|y: Seq<u8>| vs.contains(y) <==> (vs.contains(y) || y == x@) by {
            if y == x@ {
                assert(vs[pos as int] == y);
            }
        }
        return;
    }
    v.insert(pos, copy_bytes(x));
    let ghost ws = views(v@);
    assert(ws =~= vs.insert(pos as int, x@));
    assert forall|i: int, j: int| 0 <= i < j < ws.len() implies lex_lt(#[trigger] ws[i], #[trigger] ws[j]) by {
        if j < pos {
        } else if j == pos {
        } else if i == pos {
            if j - 1 > pos {
                lemma_lex_lt_transitive(x@, vs[pos as int], vs[j - 1]);
            }
        } else if i < pos {
            assert(lex_lt(vs[i], vs[j - 1]));
        } else {
            assert(lex_lt(vs[i - 1], vs[j - 1]));
        }
    }
    assert forall|y: Seq<u8>| ws.contains(y) <==> (vs.contains(y) || y == x@) by {
        if ws.contains(y) {
            let k = choose|k: int| 0 <= k < ws.len() && ws[k] == y;
            if k < pos {
                assert(vs[k] == y);
            } else if k > pos {
                assert(vs[k - 1] == y);
            }
        }
        if vs.contains(y) {
            let k = choose|k: int| 0 <= k < vs.len() && vs[k] == y;
            if k < pos {
                assert(ws[k] == y);
            } else {
                assert(ws[k + 1] == y);
            }
        }
        if y == x@ {
            assert(ws[pos as int] == y);
        }
    }
}

/// The next parts of the discovered scripts that extend `prior_parts`,
/// restricted to those that begin with `word_being_typed`, sorted and without
/// repeats.
pub fn complete_script_parts(scripts: &Vec<ScriptParts>, prior_parts: &ScriptParts, word_being_typed: &[u8]) -> (r: Vec<Vec<u8>>)
    ensures
        is_script_completion(views(r@), script_views(scripts@), prior_parts@, word_being_typed@),
{
    let ghost sv = script_views(scripts@);
    let mut out: Vec<Vec<u8>> = Vec::new();
    let mut k: usize = 0;
    assert(views(out@) =~= Seq::<Seq<u8>>::empty());
    while k < scripts.len()
        invariant
            k <= scripts@.len(),
            sv == script_views(scripts@),
            strictly_sorted(views(out@)),
            forall|c: Seq<u8>| views(out@).contains(c)
                <==> offered_by_some(sv, k as int, prior_parts@, word_being_typed@, c),
        decreases scripts@.len() - k,
    {
        let ghost before = views(out@);
        assert(sv[k as int] == scripts@[k as int]@);
        match scripts[k].try_get_next_part_after(prior_parts) {
            Some(candidate) => {
                if starts_with_bytes(candidate.as_slice(), word_being_typed) {
                    insert_sorted(&mut out, candidate.as_slice());
                    assert(offers(sv[k as int], prior_parts@, word_being_typed@, candidate@));
                }
            },
            None => {},
        }
        assert forall|c: Seq<u8>| views(out@).contains(c)
            <==> offered_by_some(sv, k + 1, prior_parts@, word_being_typed@, c) by {
            if offered_by_some(sv, k + 1, prior_parts@, word_being_typed@, c) {
                let kk = choose|kk: int| 0 <= kk < k + 1 && #[trigger] offers(sv[kk], prior_parts@, word_being_typed@, c);
                if kk < k {
                    assert(offered_by_some(sv, k as int, prior_parts@, word_being_typed@, c));
                }
            }
            if before.contains(c) {
                let kk = choose|kk: int| 0 <= kk < k && #[trigger] offers(sv[kk], prior_parts@, word_being_typed@, c);
                assert(0 <= kk < k + 1 && offers(sv[kk], prior_parts@, word_being_typed@, c));
            }
        }
        k = k + 1;
    }
    out
}

// ---------------------------------------------------------------------------
// The completion protocol
// ---------------------------------------------------------------------------

/// Arguments of the hidden `jao __complete` protocol: the command words after
/// `jao`, and the index of the word the shell is completing.
#[derive(Debug)]
pub struct CompletionRequest {
    pub index_to_complete: usize,
    pub given_arguments: Vec<Vec<u8>>,
}

/// What completion returns for the words `words` with the cursor on word
/// `index`, given the command parts of the discovered scripts.
pub open spec fn is_completion_for(
    out: Seq<Seq<u8>>,
    scripts: Seq<Seq<Seq<u8>>>,
    words: Seq<Seq<u8>>,
    index: int,
) -> bool {
    match completion_context_spec(words, index) {
        ContextModel::Options(p) => out == matching(name_bytes(static_option_names()), p),
        ContextModel::Shells(p) => out == matching(name_bytes(shell_names()), p),
        ContextModel::Scripts(prior, p) => is_script_completion(out, scripts, prior, p),
        ContextModel::Unsupported => out.len() == 0,
    }
}

/// Every element of `matching(cands, prefix)` begins with `prefix` and is one of `cands`.
pub proof fn lemma_matching_members(cands: Seq<Seq<u8>>, prefix: Seq<u8>)
    ensures
        forall|i: int| 0 <= i < matching(cands, prefix).len()
            ==> is_prefix(prefix, #[trigger] matching(cands, prefix)[i])
                && cands.contains(matching(cands, prefix)[i]),
{
    broadcast use vstd::seq_lib::group_filter_ensures;

    let pred = |c: Seq<u8>| is_prefix(prefix, c);
    let f = cands.filter(pred);
    assert(f == matching(cands, prefix));
    assert forall|i: int| 0 <= i < f.len() implies is_prefix(prefix, #[trigger] f[i]) && cands.contains(f[i]) by {
        assert(pred(f[i]));
        assert(f.contains(f[i]));
        cands.lemma_filter_contains_rev(pred, f[i]);
    }
}

/// The candidates for a completion request, one per line of the protocol's output.
///
/// `scripts` holds the command parts of every script discovered under the
/// working directory.
pub fn complete_request(scripts: &Vec<ScriptParts>, args: &CompletionRequest) -> (r: Vec<Vec<u8>>)
    ensures
        is_completion_for(views(r@), script_views(scripts@), views(args.given_arguments@), args.index_to_complete as int),
        forall|i: int| 0 <= i < r@.len() ==> is_prefix(
            word_at(views(args.given_arguments@), args.index_to_complete as int),
            #[trigger] views(r@)[i],
        ),
{
    let ghost words = views(args.given_arguments@);
    let ghost typed = word_at(words, args.index_to_complete as int);
    let context = completion_context(&args.given_arguments, args.index_to_complete);
    match context {
        CompletionContext::Options { word_being_typed } => {
            let r = complete_options(word_being_typed.as_slice());
            proof {
                lemma_matching_members(name_bytes(static_option_names()), word_being_typed@);
            }
            r
        },
        CompletionContext::Shells { word_being_typed } => {
            let r = complete_shells(word_being_typed.as_slice());
            proof {
                lemma_matching_members(name_bytes(shell_names()), word_being_typed@);
            }
            r
        },
        CompletionContext::Scripts { prior_parts, word_being_typed } => {
            let r = complete_script_parts(scripts, &prior_parts, word_being_typed.as_slice());
            assert forall|i: int| 0 <= i < r@.len() implies is_prefix(typed, #[trigger] views(r@)[i]) by {
                assert(views(r@).contains(views(r@)[i]));
            }
            r
        },
        CompletionContext::Unsupported => {
            let r: Vec<Vec<u8>> = Vec::new();
            assert(views(r@) =~= Seq::<Seq<u8>>::empty());
            r
        },
    }
}

// ---------------------------------------------------------------------------
// Laws
// ---------------------------------------------------------------------------

/// The option words that the scan tells apart are distinct byte strings.
proof fn lemma_flags_distinct()
    ensures
        "--completions".spec_bytes() != "--ci".spec_bytes(),
        "--completions".spec_bytes() != "--fingerprint".spec_bytes(),
        "--completions".spec_bytes() != "--require-fingerprint".spec_bytes(),
        "--require-fingerprint".spec_bytes() != "--ci".spec_bytes(),
        "--require-fingerprint".spec_bytes() != "--fingerprint".spec_bytes(),
{
    reveal_strlit("--completions");
    reveal_strlit("--ci");
    reveal_strlit("--fingerprint");
    reveal_strlit("--require-fingerprint");
    assert(vstd::string::is_ascii("--completions"));
    assert(vstd::string::is_ascii("--ci"));
    assert(vstd::string::is_ascii("--fingerprint"));
    assert(vstd::string::is_ascii("--require-fingerprint"));
    lemma_ascii_bytes("--completions");
    lemma_ascii_bytes("--ci");
    lemma_ascii_bytes("--fingerprint");
    lemma_ascii_bytes("--require-fingerprint");
    assert("--completions".spec_bytes()[2] != "--fingerprint".spec_bytes()[2]);
    assert("--ci".spec_bytes().len() == 4);
    assert("--completions".spec_bytes().len() == 13);
    assert("--require-fingerprint".spec_bytes().len() == 21);
}

/// Every shell name that completion offers is one that `Shell::try_from` accepts.
pub proof fn law_offered_shells_are_known(prefix: Seq<u8>)
    ensures
        forall|i: int| 0 <= i < matching(name_bytes(shell_names()), prefix).len() ==> {
            let c = #[trigger] matching(name_bytes(shell_names()), prefix)[i];
            c == shell_name(Shell::Bash) || c == shell_name(Shell::Zsh)
        },
{
    lemma_matching_members(name_bytes(shell_names()), prefix);
    let names = name_bytes(shell_names());
    assert(names =~= seq!["bash".spec_bytes(), "zsh".spec_bytes()]);
}

/// `--completions` at the top level consumes exactly one value: the word after
/// it is completed as a shell name, and no word after that value is completed.
pub proof fn law_completions_takes_one_value(words: Seq<Seq<u8>>, j: int, index: int)
    requires
        0 <= j < words.len(),
        j < index,
        !scan_prefix(words, j as nat).halted,
        !scan_prefix(words, j as nat).expects_fingerprint_value,
        !scan_prefix(words, j as nat).expects_shell_value,
        scan_prefix(words, j as nat).mode == ParseMode::TopLevel,
        words[j] == "--completions".spec_bytes(),
    ensures
        index == j + 1 ==> completion_context_spec(words, index) == ContextModel::Shells(word_at(words, index)),
        index > j + 1 && j + 1 < words.len() ==> completion_context_spec(words, index)
            == ContextModel::Unsupported,
{
    lemma_flags_distinct();
    let st = scan_prefix(words, (j + 1) as nat);
    assert(st.expects_shell_value && !st.halted && !st.expects_fingerprint_value);
    if index > j + 1 && j + 1 < words.len() {
        assert(scan_prefix(words, (j + 2) as nat).halted);
        let n = if index < words.len() { index } else { words.len() as int };
        lemma_halted_persists(words, (j + 2) as nat, n as nat);
    }
}

/// The word after `--require-fingerprint` is its value, which is never completed.
pub proof fn law_fingerprint_value_not_completed(words: Seq<Seq<u8>>, j: int)
    requires
        0 <= j < words.len(),
        !scan_prefix(words, j as nat).halted,
        !scan_prefix(words, j as nat).expects_fingerprint_value,
        !scan_prefix(words, j as nat).expects_shell_value,
        scan_prefix(words, j as nat).mode == ParseMode::TopLevel,
        words[j] == "--require-fingerprint".spec_bytes(),
    ensures
        completion_context_spec(words, j + 1) == ContextModel::Unsupported,
{
    lemma_flags_distinct();
    assert(scan_prefix(words, (j + 1) as nat).expects_fingerprint_value);
}

/// Once the script command has begun, every later word is one of its parts:
/// the scan over the first `m` words holds the parts before word `j` followed
/// by words `j .. m`.
pub proof fn law_script_words_extend_command(words: Seq<Seq<u8>>, j: nat, m: nat)
    requires
        j <= m <= words.len(),
        scan_prefix(words, j).mode == ParseMode::ScriptParts,
        !scan_prefix(words, j).halted,
        !scan_prefix(words, j).expects_fingerprint_value,
        !scan_prefix(words, j).expects_shell_value,
    ensures
        scan_prefix(words, m).mode == ParseMode::ScriptParts,
        !scan_prefix(words, m).halted,
        !scan_prefix(words, m).expects_fingerprint_value,
        !scan_prefix(words, m).expects_shell_value,
        scan_prefix(words, m).prior == scan_prefix(words, j).prior + words.subrange(j as int, m as int),
    decreases m - j,
{
    if m > j {
        law_script_words_extend_command(words, j, (m - 1) as nat);
        assert(words.subrange(j as int, m as int) =~= words.subrange(j as int, m - 1).push(words[m - 1]));
        assert(scan_prefix(words, m).prior =~= scan_prefix(words, j).prior + words.subrange(j as int, m as int));
    } else {
        assert(scan_prefix(words, j).prior + words.subrange(j as int, m as int) =~= scan_prefix(words, j).prior);
    }
}

/// Every script part that completion offers continues some discovered script:
/// the typed parts followed by the offered part begin that script's command.
pub proof fn law_offered_part_continues_a_script(
    out: Seq<Seq<u8>>,
    scripts: Seq<Seq<Seq<u8>>>,
    prior: Seq<Seq<u8>>,
    word: Seq<u8>,
    c: Seq<u8>,
)
    requires
        is_script_completion(out, scripts, prior, word),
        out.contains(c),
    ensures
        is_prefix(word, c),
        exists|k: int| 0 <= k < scripts.len() && #[trigger] scripts[k].take(prior.len() as int + 1) == prior.push(c),
{
    let k = choose|k: int| 0 <= k < scripts.len() && #[trigger] offers(scripts[k], prior, word, c);
    assert(scripts[k].take(prior.len() as int + 1) =~= prior.push(c));
}

/// The scan over the first `n` words depends on those words alone.
proof fn lemma_scan_depends_on_prefix(w1: Seq<Seq<u8>>, w2: Seq<Seq<u8>>, n: nat)
    requires
        n <= w1.len(),
        n <= w2.len(),
        forall|i: int| 0 <= i < n ==> w1[i] == w2[i],
    ensures
        scan_prefix(w1, n) == scan_prefix(w2, n),
    decreases n,
{
    if n > 0 {
        lemma_scan_depends_on_prefix(w1, w2, (n - 1) as nat);
        assert(w1[n - 1] == w2[n - 1]);
    }
}

/// What is completed at the cursor depends only on the words up to and
/// including the word under the cursor: words after it never change it.
pub proof fn law_later_words_do_not_matter(w1: Seq<Seq<u8>>, w2: Seq<Seq<u8>>, index: int)
    requires
        0 <= index < w1.len(),
        index < w2.len(),
        forall|i: int| 0 <= i <= index ==> w1[i] == w2[i],
    ensures
        completion_context_spec(w1, index) == completion_context_spec(w2, index),
{
    lemma_scan_depends_on_prefix(w1, w2, index as nat);
    assert(w1[index] == w2[index]);
}

/// At the top level (no script word yet, no option waiting for its value, and
/// nothing that ends completion), a word that begins with `-` is completed as
/// an option.
pub proof fn law_dash_word_completes_options(words: Seq<Seq<u8>>, i: int)
    requires
        0 <= i < words.len(),
        scan_prefix(words, i as nat).mode == ParseMode::TopLevel,
        !scan_prefix(words, i as nat).halted,
        !scan_prefix(words, i as nat).expects_fingerprint_value,
        !scan_prefix(words, i as nat).expects_shell_value,
        words[i].len() > 0,
        words[i][0] == 45u8,
    ensures
        completion_context_spec(words, i) == ContextModel::Options(words[i]),
{
    reveal_strlit("-");
    assert(vstd::string::is_ascii("-"));
    lemma_ascii_bytes("-");
    assert("-".spec_bytes() =~= seq![45u8]);
    assert(words[i].subrange(0, 1) =~= seq![45u8]);
}

/// Every option begins with `-`.
proof fn lemma_options_begin_with_dash()
    ensures
        forall|k: int| 0 <= k < name_bytes(static_option_names()).len() ==> is_prefix(
            seq![45u8],
            #[trigger] name_bytes(static_option_names())[k],
        ),
{
    reveal_strlit("--help");
    reveal_strlit("--version");
    reveal_strlit("--list");
    reveal_strlit("--ci");
    reveal_strlit("--fingerprint");
    reveal_strlit("--require-fingerprint");
    reveal_strlit("--completions");
    let names = static_option_names();
    assert forall|k: int| 0 <= k < names.len() implies is_prefix(seq![45u8], #[trigger] name_bytes(names)[k]) by {
        let n = names[k];
        assert(vstd::string::is_ascii(n));
        lemma_ascii_bytes(n);
        assert(n.spec_bytes().subrange(0, 1) =~= seq![45u8]);
    }
}

/// Filtering by a predicate that every element meets keeps every element.
proof fn lemma_filter_keeps_all(s: Seq<Seq<u8>>, prefix: Seq<u8>)
    requires
        forall|k: int| 0 <= k < s.len() ==> is_prefix(prefix, #[trigger] s[k]),
    ensures
        matching(s, prefix) == s,
    decreases s.len(),
{
    reveal(Seq::filter);
    if s.len() > 0 {
        assert forall|k: int| 0 <= k < s.drop_last().len() implies is_prefix(prefix, #[trigger] s.drop_last()[k]) by {
            assert(s.drop_last()[k] == s[k]);
        }
        lemma_filter_keeps_all(s.drop_last(), prefix);
        assert(is_prefix(prefix, s[s.len() - 1]));
        assert(s.drop_last().push(s.last()) =~= s);
    }
}

/// A lone `-` is completed with every option, in the order they are offered.
pub proof fn law_single_dash_offers_every_option()
    ensures
        matching(name_bytes(static_option_names()), seq![45u8]) == name_bytes(static_option_names()),
        name_bytes(static_option_names()).len() == 7,
{
    lemma_options_begin_with_dash();
    lemma_filter_keeps_all(name_bytes(static_option_names()), seq![45u8]);
}

/// The byte form of every option word the scan recognises, by length and
/// first byte.
proof fn lemma_flag_shapes()
    ensures
        "--ci".spec_bytes().len() == 4,
        "--fingerprint".spec_bytes().len() == 13,
        "--require-fingerprint".spec_bytes().len() == 21,
        "--completions".spec_bytes().len() == 13,
        "--list".spec_bytes().len() == 6,
        "--help".spec_bytes().len() == 6,
        "--version".spec_bytes().len() == 9,
        "-".spec_bytes() == seq![45u8],
        "--ci".spec_bytes()[0] == 45u8,
        "--fingerprint".spec_bytes()[0] == 45u8,
        "--require-fingerprint".spec_bytes()[0] == 45u8,
        "--completions".spec_bytes()[0] == 45u8,
        "--list".spec_bytes()[0] == 45u8,
        "--help".spec_bytes()[0] == 45u8,
        "--version".spec_bytes()[0] == 45u8,
        "--fingerprint".spec_bytes()[2] != "--completions".spec_bytes()[2],
{
    reveal_strlit("--ci");
    reveal_strlit("--fingerprint");
    reveal_strlit("--require-fingerprint");
    reveal_strlit("--completions");
    reveal_strlit("--list");
    reveal_strlit("--help");
    reveal_strlit("--version");
    reveal_strlit("-");
    assert(vstd::string::is_ascii("--ci"));
    assert(vstd::string::is_ascii("--fingerprint"));
    assert(vstd::string::is_ascii("--require-fingerprint"));
    assert(vstd::string::is_ascii("--completions"));
    assert(vstd::string::is_ascii("--list"));
    assert(vstd::string::is_ascii("--help"));
    assert(vstd::string::is_ascii("--version"));
    assert(vstd::string::is_ascii("-"));
    lemma_ascii_bytes("--ci");
    lemma_ascii_bytes("--fingerprint");
    lemma_ascii_bytes("--require-fingerprint");
    lemma_ascii_bytes("--completions");
    lemma_ascii_bytes("--list");
    lemma_ascii_bytes("--help");
    lemma_ascii_bytes("--version");
    lemma_ascii_bytes("-");
    assert("-".spec_bytes() =~= seq![45u8]);
}

/// What each word does at the top level (no script word yet, no option
/// waiting for its value, nothing that ends completion): `--ci` and other
/// words starting with `-` are passed over, `--fingerprint` starts the script
/// command, `--list`, `--help` and `--version` end completion for every later
/// position, and a word not starting with `-` is the first script part.
pub proof fn law_top_level_words(words: Seq<Seq<u8>>, j: int)
    requires
        0 <= j < words.len(),
        scan_prefix(words, j as nat).mode == ParseMode::TopLevel,
        !scan_prefix(words, j as nat).halted,
        !scan_prefix(words, j as nat).expects_fingerprint_value,
        !scan_prefix(words, j as nat).expects_shell_value,
    ensures
        words[j] == "--ci".spec_bytes() ==> scan_prefix(words, (j + 1) as nat) == scan_prefix(words, j as nat),
        words[j] == "--fingerprint".spec_bytes() ==> {
            let after = scan_prefix(words, (j + 1) as nat);
            &&& after.mode == ParseMode::ScriptParts
            &&& after.prior == scan_prefix(words, j as nat).prior
            &&& !after.halted && !after.expects_fingerprint_value && !after.expects_shell_value
        },
        words[j] == "--list".spec_bytes() || words[j] == "--help".spec_bytes() || words[j] == "--version".spec_bytes()
            ==> forall|index: int| j < index ==> completion_context_spec(words, index) == ContextModel::Unsupported,
        words[j].len() > 0 && words[j][0] == 45u8 && words[j] != "--fingerprint".spec_bytes() && words[j]
            != "--require-fingerprint".spec_bytes() && words[j] != "--completions".spec_bytes() && words[j]
            != "--list".spec_bytes() && words[j] != "--help".spec_bytes() && words[j] != "--version".spec_bytes()
            ==> scan_prefix(words, (j + 1) as nat) == scan_prefix(words, j as nat),
        (words[j].len() == 0 || words[j][0] != 45u8) ==> {
            let after = scan_prefix(words, (j + 1) as nat);
            &&& after.mode == ParseMode::ScriptParts
            &&& after.prior == scan_prefix(words, j as nat).prior.push(words[j])
            &&& !after.halted && !after.expects_fingerprint_value && !after.expects_shell_value
        },
{
    lemma_flag_shapes();
    let w = words[j];
    if w.len() > 0 && w[0] == 45u8 {
        assert(w.subrange(0, 1) =~= seq![45u8]);
    }
    if w.len() == 0 || w[0] != 45u8 {
        assert(w != "--ci".spec_bytes());
        assert(w != "--fingerprint".spec_bytes());
        assert(w != "--require-fingerprint".spec_bytes());
        assert(w != "--completions".spec_bytes());
        assert(w != "--list".spec_bytes());
        assert(w != "--help".spec_bytes());
        assert(w != "--version".spec_bytes());
        if w.len() > 0 {
            assert(w.subrange(0, 1)[0] != seq![45u8][0]);
        }
        assert(!is_prefix("-".spec_bytes(), w));
    }
    if w == "--list".spec_bytes() || w == "--help".spec_bytes() || w == "--version".spec_bytes() {
        assert(scan_prefix(words, (j + 1) as nat).halted);
        assert forall|index: int| j < index implies completion_context_spec(words, index) == ContextModel::Unsupported by {
            let n = if index < words.len() { index } else { words.len() as int };
            lemma_halted_persists(words, (j + 1) as nat, n as nat);
        }
    }
}

} // verus!
