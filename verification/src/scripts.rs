//! Script command parts: the words a user types to name a script.
//!
//! A script `deploy.api.prod.sh` is named by the parts `deploy api prod`:
//! the parts joined with `.` form the script's base name, and the extension
//! is chosen by the platform.
use vstd::prelude::*;
use vstd::string::StringSliceAdditionalSpecFns;

use crate::bytes::{bytes_equal, extend_bytes, views};

verus! {

/// The parts after `prior` in `parts`, when `prior` is a proper prefix of `parts`.
pub open spec fn next_part_after(parts: Seq<Seq<u8>>, prior: Seq<Seq<u8>>) -> Option<Seq<u8>> {
    if prior.len() < parts.len() && parts.take(prior.len() as int) == prior {
        Some(parts[prior.len() as int])
    } else {
        None
    }
}

/// The command parts of one script, in order.
#[derive(Clone, Debug)]
pub struct ScriptParts {
    pub parts: Vec<Vec<u8>>,
}

impl View for ScriptParts {
    type V = Seq<Seq<u8>>;

    open spec fn view(&self) -> Seq<Seq<u8>> {
        views(self.parts@)
    }
}

/// A copy of a byte string as a vector.
pub fn copy_bytes(b: &[u8]) -> (r: Vec<u8>)
    ensures
        r@ == b@,
{
    vstd::slice::slice_to_vec(b)
}

impl ScriptParts {
    /// No parts yet.
    pub fn new() -> (r: ScriptParts)
        ensures
            r@ == Seq::<Seq<u8>>::empty(),
    {
        let r = ScriptParts { parts: Vec::new() };
        assert(r@ =~= Seq::<Seq<u8>>::empty());
        r
    }

    /// Appends one part.
    pub fn push(&mut self, part: &[u8])
        ensures
            final(self)@ == old(self)@.push(part@),
    {
        let ghost before = self.parts@;
        self.parts.push(copy_bytes(part));
        assert(views(self.parts@) =~= views(before).push(part@));
    }

    /// Number of parts.
    pub fn len(&self) -> (r: usize)
        ensures
            r == self@.len(),
    {
        self.parts.len()
    }

    /// Whether `self` and `other` hold the same parts.
    pub fn same_parts(&self, other: &ScriptParts) -> (r: bool)
        ensures
            r == (self@ == other@),
    {
        if self.parts.len() != other.parts.len() {
            assert(self@.len() != other@.len());
            return false;
        }
        let mut i: usize = 0;
        while i < self.parts.len()
            invariant
                self.parts@.len() == other.parts@.len(),
                i <= self.parts@.len(),
                forall|k: int| 0 <= k < i ==> self@[k] == other@[k],
            decreases self.parts@.len() - i,
        {
            if !bytes_equal(self.parts[i].as_slice(), other.parts[i].as_slice()) {
                assert(self@[i as int] != other@[i as int]);
                return false;
            }
            i = i + 1;
        }
        assert(self@ =~= other@);
        true
    }

    /// The part that follows `prior` in `self`, when `self` starts with all of
    /// `prior` and has at least one part more.
    pub fn try_get_next_part_after(&self, prior: &ScriptParts) -> (r: Option<&Vec<u8>>)
        ensures
            match r {
                Some(p) => next_part_after(self@, prior@) == Some(p@),
                None => next_part_after(self@, prior@) is None,
            },
    {
        let n = prior.parts.len();
        if n >= self.parts.len() {
            return None;
        }
        let mut i: usize = 0;
        while i < n
            invariant
                n == prior@.len(),
                n < self@.len(),
                i <= n,
                forall|k: int| 0 <= k < i ==> self@[k] == prior@[k],
            decreases n - i,
        {
            if !bytes_equal(self.parts[i].as_slice(), prior.parts[i].as_slice()) {
                assert(self@.take(n as int)[i as int] != prior@[i as int]);
                return None;
            }
            i = i + 1;
        }
        assert(self@.take(n as int) =~= prior@);
        Some(&self.parts[n])
    }
}

// ---------------------------------------------------------------------------
// Script file names
// ---------------------------------------------------------------------------

/// The platform whose script kind is run.
#[derive(Clone, Copy, Debug, PartialEq, Eq)]
pub enum Platform {
    /// Unix-like systems run `.sh` scripts with `sh`.
    Unix,
    /// Windows runs `.bat` scripts with `cmd /C`.
    Windows,
}

/// The byte of `.`.
pub open spec fn dot() -> u8 {
    46u8
}

/// The file extension of the platform's scripts.
pub open spec fn extension(platform: Platform) -> Seq<u8> {
    match platform {
        Platform::Unix => ".sh".spec_bytes(),
        Platform::Windows => ".bat".spec_bytes(),
    }
}

/// The parts joined with `sep` between each two.
pub open spec fn join_with(parts: Seq<Seq<u8>>, sep: u8) -> Seq<u8>
    decreases parts.len(),
{
    if parts.len() == 0 {
        Seq::empty()
    } else if parts.len() == 1 {
        parts[0]
    } else {
        join_with(parts.drop_last(), sep) + seq![sep] + parts.last()
    }
}

/// `s` cut at every `.`; a name without dots is one part.
pub open spec fn split_dots(s: Seq<u8>) -> Seq<Seq<u8>>
    decreases s.len(),
{
    if s.len() == 0 {
        seq![Seq::empty()]
    } else if s.last() == dot() {
        split_dots(s.drop_last()).push(Seq::empty())
    } else {
        let r = split_dots(s.drop_last());
        r.update(r.len() - 1, r.last().push(s.last()))
    }
}

/// No part contains a `.`.
pub open spec fn dot_free(parts: Seq<Seq<u8>>) -> bool {
    forall|i: int, k: int| 0 <= i < parts.len() && 0 <= k < parts[i].len() ==> #[trigger] parts[i][k] != dot()
}

/// The script file name that the parts of a command name: the parts joined
/// with `.`, followed by the platform's extension.
pub open spec fn script_file_name_spec(parts: Seq<Seq<u8>>, platform: Platform) -> Seq<u8> {
    join_with(parts, dot()) + extension(platform)
}

/// The command parts of a script file, when the name ends with the platform's
/// extension after a non-empty base name: the base name cut at every `.`.
pub open spec fn parts_of_file_name(name: Seq<u8>, platform: Platform) -> Option<Seq<Seq<u8>>> {
    let ext = extension(platform);
    if name.len() > ext.len() && name.skip(name.len() - ext.len()) == ext {
        Some(split_dots(name.take(name.len() - ext.len())))
    } else {
        None
    }
}

/// `split_dots` always yields at least one part.
proof fn lemma_split_dots_nonempty(s: Seq<u8>)
    ensures
        split_dots(s).len() >= 1,
    decreases s.len(),
{
    if s.len() > 0 {
        lemma_split_dots_nonempty(s.drop_last());
    }
}

/// Cutting `x . tail` at its dots, where `tail` has none, gives the parts of
/// `x` followed by `tail`.
proof fn lemma_split_dots_append(x: Seq<u8>, tail: Seq<u8>)
    requires
        forall|k: int| 0 <= k < tail.len() ==> tail[k] != dot(),
    ensures
        split_dots(x + seq![dot()] + tail) == split_dots(x).push(tail),
    decreases tail.len(),
{
    if tail.len() == 0 {
        assert(x + seq![dot()] + tail =~= x.push(dot()));
        assert((x + seq![dot()] + tail).drop_last() =~= x);
        assert((x + seq![dot()] + tail).last() == dot());
        assert(tail =~= Seq::<u8>::empty());
    } else {
        let t0 = tail.drop_last();
        assert(tail[tail.len() - 1] != dot());
        assert forall|k: int| 0 <= k < t0.len() implies t0[k] != dot() by {
            assert(t0[k] == tail[k]);
        }
        lemma_split_dots_append(x, t0);
        let s = x + seq![dot()] + tail;
        assert(s.drop_last() =~= x + seq![dot()] + t0);
        assert(s.last() == tail.last());
        lemma_split_dots_nonempty(x);
        assert(tail =~= t0.push(tail.last()));
        assert(split_dots(s) =~= split_dots(x).push(tail));
    }
}

/// A name without dots is a single part.
proof fn lemma_split_dots_single(s: Seq<u8>)
    requires
        forall|k: int| 0 <= k < s.len() ==> s[k] != dot(),
    ensures
        split_dots(s) == seq![s],
    decreases s.len(),
{
    if s.len() == 0 {
        assert(s =~= Seq::<u8>::empty());
    } else {
        assert(s[s.len() - 1] != dot());
        assert forall|k: int| 0 <= k < s.drop_last().len() implies s.drop_last()[k] != dot() by {
            assert(s.drop_last()[k] == s[k]);
        }
        lemma_split_dots_single(s.drop_last());
        assert(s =~= s.drop_last().push(s.last()));
        assert(split_dots(s) =~= seq![s]);
    }
}

/// Joining the parts of a command with `.` and cutting the result at its
/// dots gives back the parts, when there is at least one part and no part
/// contains a dot.
pub proof fn law_split_undoes_join(parts: Seq<Seq<u8>>)
    requires
        parts.len() >= 1,
        dot_free(parts),
    ensures
        split_dots(join_with(parts, dot())) == parts,
    decreases parts.len(),
{
    if parts.len() == 1 {
        assert(forall|k: int| 0 <= k < parts[0].len() ==> parts[0][k] != dot());
        lemma_split_dots_single(parts[0]);
        assert(seq![parts[0]] =~= parts);
    } else {
        let init = parts.drop_last();
        assert(dot_free(init)) by {
            assert forall|i: int, k: int| 0 <= i < init.len() && 0 <= k < init[i].len() implies #[trigger] init[i][k]
                != dot() by {
                assert(init[i] == parts[i]);
            }
        }
        law_split_undoes_join(init);
        let last = parts.last();
        assert(forall|k: int| 0 <= k < last.len() ==> last[k] != dot()) by {
            assert forall|k: int| 0 <= k < last.len() implies last[k] != dot() by {
                assert(parts[parts.len() - 1][k] != dot());
            }
        }
        lemma_split_dots_append(join_with(init, dot()), last);
        assert(init.push(last) =~= parts);
    }
}

/// The file name of the script that a command names is recognised as a
/// script of that command, when the command has a part, no part contains a
/// dot and the base name is not empty.
pub proof fn law_file_name_names_command(parts: Seq<Seq<u8>>, platform: Platform)
    requires
        parts.len() >= 1,
        dot_free(parts),
        join_with(parts, dot()).len() > 0,
    ensures
        parts_of_file_name(script_file_name_spec(parts, platform), platform) == Some(parts),
{
    let base = join_with(parts, dot());
    let name = script_file_name_spec(parts, platform);
    let ext = extension(platform);
    assert(name.skip(name.len() - ext.len()) =~= ext);
    assert(name.take(name.len() - ext.len()) =~= base);
    law_split_undoes_join(parts);
}

/// The extension bytes of the platform's scripts.
fn extension_bytes(platform: Platform) -> (r: &'static [u8])
    ensures
        r@ == extension(platform),
{
    match platform {
        Platform::Unix => ".sh".as_bytes(),
        Platform::Windows => ".bat".as_bytes(),
    }
}

/// The parts joined with `sep`.
pub fn join_parts(parts: &ScriptParts, sep: u8) -> (r: Vec<u8>)
    ensures
        r@ == join_with(parts@, sep),
{
    let mut out: Vec<u8> = Vec::new();
    let mut i: usize = 0;
    while i < parts.parts.len()
        invariant
            i <= parts@.len(),
            out@ == join_with(parts@.take(i as int), sep),
        decreases parts@.len() - i,
    {
        let ghost before = out@;
        let part = parts.parts[i].as_slice();
        assert(part@ == parts@[i as int]);
        assert(parts@.take(i + 1).drop_last() =~= parts@.take(i as int));
        if i > 0 {
            out.push(sep);
        }
        let mut k: usize = 0;
        while k < part.len()
            invariant
                k <= part@.len(),
                out@ == (if i > 0 { before + seq![sep] } else { before }) + part@.take(k as int),
            decreases part@.len() - k,
        {
            out.push(part[k]);
            assert(part@.take(k + 1) =~= part@.take(k as int).push(part@[k as int]));
            k = k + 1;
        }
        assert(part@.take(part@.len() as int) =~= part@);
        if i == 0 {
            assert(out@ =~= join_with(parts@.take(1), sep));
        } else {
            assert(out@ =~= join_with(parts@.take(i + 1), sep));
        }
        i = i + 1;
    }
    assert(parts@.take(parts@.len() as int) =~= parts@);
    out
}

/// The file name of the script that the command parts name on `platform`:
/// `deploy api prod` names `deploy.api.prod.sh` on Unix.
pub fn script_file_name(parts: &ScriptParts, platform: Platform) -> (r: Vec<u8>)
    ensures
        r@ == script_file_name_spec(parts@, platform),
{
    let mut name = join_parts(parts, 46u8);
    let ext = extension_bytes(platform);
    let ghost base = name@;
    let mut k: usize = 0;
    while k < ext.len()
        invariant
            k <= ext@.len(),
            name@ == base + ext@.take(k as int),
        decreases ext@.len() - k,
    {
        name.push(ext[k]);
        assert(ext@.take(k + 1) =~= ext@.take(k as int).push(ext@[k as int]));
        k = k + 1;
    }
    assert(ext@.take(ext@.len() as int) =~= ext@);
    name
}

/// The command parts of a file, when it is a script of the platform: its
/// name ends with the platform's extension after a non-empty base name,
/// which is cut at every `.`.
pub fn script_parts_from_file_name(name: &[u8], platform: Platform) -> (r: Option<ScriptParts>)
    ensures
        match r {
            Some(p) => parts_of_file_name(name@, platform) == Some(p@),
            None => parts_of_file_name(name@, platform) is None,
        },
{
    let ext = extension_bytes(platform);
    if name.len() <= ext.len() {
        return None;
    }
    let base_len = name.len() - ext.len();
    let mut k: usize = 0;
    while k < ext.len()
        invariant
            base_len + ext@.len() == name@.len(),
            name@.len() <= usize::MAX,
            ext@ == extension(platform),
            k <= ext@.len(),
            forall|j: int| 0 <= j < k ==> name@[base_len + j] == ext@[j],
        decreases ext@.len() - k,
    {
        if name[base_len + k] != ext[k] {
            assert(name@.skip(base_len as int)[k as int] != ext@[k as int]);
            return None;
        }
        k = k + 1;
    }
    assert(name@.skip(base_len as int) =~= ext@);
    let ghost base = name@.take(base_len as int);
    let mut parts = ScriptParts::new();
    let mut current: Vec<u8> = Vec::new();
    let mut i: usize = 0;
    while i < base_len
        invariant
            base_len <= name@.len(),
            base == name@.take(base_len as int),
            i <= base_len,
            parts@.push(current@) == split_dots(base.take(i as int)),
        decreases base_len - i,
    {
        let b = name[i];
        assert(base.take(i + 1).drop_last() =~= base.take(i as int));
        assert(base.take(i + 1).last() == b);
        if b == 46u8 {
            parts.push(current.as_slice());
            current = Vec::new();
            assert(parts@.push(current@) =~= split_dots(base.take(i + 1)));
        } else {
            let ghost before = current@;
            current.push(b);
            assert(parts@.push(current@) =~= split_dots(base.take(i + 1)));
        }
        i = i + 1;
    }
    parts.push(current.as_slice());
    assert(base.take(base_len as int) =~= base);
    Some(parts)
}

/// The first discovered script file that the command names: its file name is
/// the command's parts joined with `.`, followed by the platform's extension
/// (`jao deploy api` and `jao deploy.api` both name `deploy.api.sh`).
pub fn find_script(file_names: &Vec<Vec<u8>>, command: &ScriptParts, platform: Platform) -> (r: Option<usize>)
    ensures
        match r {
            Some(k) => k < file_names@.len() && file_names@[k as int]@ == script_file_name_spec(command@, platform)
                && forall|j: int|
                0 <= j < k ==> #[trigger] file_names@[j]@ != script_file_name_spec(command@, platform),
            None => forall|j: int|
                0 <= j < file_names@.len() ==> #[trigger] file_names@[j]@ != script_file_name_spec(
                    command@,
                    platform,
                ),
        },
{
    let wanted = script_file_name(command, platform);
    let mut k: usize = 0;
    while k < file_names.len()
        invariant
            k <= file_names@.len(),
            wanted@ == script_file_name_spec(command@, platform),
            forall|j: int| 0 <= j < k ==> #[trigger] file_names@[j]@ != script_file_name_spec(command@, platform),
        decreases file_names@.len() - k,
    {
        if bytes_equal(file_names[k].as_slice(), wanted.as_slice()) {
            return Some(k);
        }
        k = k + 1;
    }
    None
}

/// The line that lists a script: its command parts separated by spaces, a
/// space, two tabs and a space, then its path.
pub open spec fn listing_line_spec(parts: Seq<Seq<u8>>, path: Seq<u8>) -> Seq<u8> {
    join_with(parts, 32u8) + " \t\t ".spec_bytes() + path
}

/// The line that lists a discovered script: the command that runs it and
/// where it is.
pub fn listing_line(parts: &ScriptParts, path: &[u8]) -> (r: Vec<u8>)
    ensures
        r@ == listing_line_spec(parts@, path@),
{
    let mut line = join_parts(parts, 32u8);
    extend_bytes(&mut line, " \t\t ".as_bytes());
    extend_bytes(&mut line, path);
    line
}

// ---------------------------------------------------------------------------
// Discovery
// ---------------------------------------------------------------------------

/// One entry of a directory being searched for scripts.
#[derive(Debug)]
pub struct DirectoryEntry {
    pub name: Vec<u8>,
    pub is_dir: bool,
}

/// A script file found among a directory's entries, with its command parts.
#[derive(Debug)]
pub struct FoundScript {
    pub entry: usize,
    pub parts: ScriptParts,
}

/// What one directory contributes to the search: its script files and the
/// subdirectories still to search, each in the order of the entries.
#[derive(Debug)]
pub struct DirectoryScan {
    pub scripts: Vec<FoundScript>,
    pub subdirs: Vec<usize>,
}

/// The entry is a script file of the platform.
pub open spec fn is_script_entry(e: DirectoryEntry, platform: Platform) -> bool {
    !e.is_dir && parts_of_file_name(e.name@, platform) is Some
}

/// The indices, among the first `n` entries, of the subdirectories.
pub open spec fn dir_indices(es: Seq<DirectoryEntry>, n: nat) -> Seq<usize>
    decreases n,
{
    if n == 0 {
        Seq::empty()
    } else if es[n - 1].is_dir {
        dir_indices(es, (n - 1) as nat).push((n - 1) as usize)
    } else {
        dir_indices(es, (n - 1) as nat)
    }
}

/// The indices, among the first `n` entries, of the script files.
pub open spec fn script_indices(es: Seq<DirectoryEntry>, platform: Platform, n: nat) -> Seq<usize>
    decreases n,
{
    if n == 0 {
        Seq::empty()
    } else if is_script_entry(es[n - 1], platform) {
        script_indices(es, platform, (n - 1) as nat).push((n - 1) as usize)
    } else {
        script_indices(es, platform, (n - 1) as nat)
    }
}

/// The script files found are exactly the entries `idx`, in order, each with
/// the command parts of its file name.
pub open spec fn found_scripts_are(found: Seq<FoundScript>, es: Seq<DirectoryEntry>, platform: Platform, idx: Seq<usize>) -> bool {
    &&& found.len() == idx.len()
    &&& forall|k: int| 0 <= k < found.len() ==> {
        &&& (#[trigger] found[k]).entry == idx[k]
        &&& idx[k] < es.len()
        &&& parts_of_file_name(es[idx[k] as int].name@, platform) == Some(found[k].parts@)
    }
}

/// The script indices among the first `n` entries are exactly the script
/// entries among them, in increasing order.
proof fn lemma_script_indices(es: Seq<DirectoryEntry>, platform: Platform, n: nat)
    requires
        n <= es.len(),
        es.len() <= usize::MAX,
    ensures
        forall|j: int| 0 <= j < script_indices(es, platform, n).len() ==> {
            &&& (#[trigger] script_indices(es, platform, n)[j]) < n
            &&& is_script_entry(es[script_indices(es, platform, n)[j] as int], platform)
        },
        forall|j1: int, j2: int| 0 <= j1 < j2 < script_indices(es, platform, n).len() ==> #[trigger] script_indices(
            es,
            platform,
            n,
        )[j1] < #[trigger] script_indices(es, platform, n)[j2],
        forall|k: int| 0 <= k < n && is_script_entry(#[trigger] es[k], platform) ==> exists|j: int|
            0 <= j < script_indices(es, platform, n).len() && script_indices(es, platform, n)[j] == k,
    decreases n,
{
    if n > 0 {
        lemma_script_indices(es, platform, (n - 1) as nat);
        assert(((n - 1) as usize) as int == n - 1);
        let prev = script_indices(es, platform, (n - 1) as nat);
        let cur = script_indices(es, platform, n);
        assert forall|k: int| 0 <= k < n && is_script_entry(#[trigger] es[k], platform) implies exists|j: int|
            0 <= j < cur.len() && cur[j] == k by {
            if k < n - 1 {
                let j = choose|j: int| 0 <= j < prev.len() && prev[j] == k;
                assert(cur[j] == k);
            } else {
                assert(cur[cur.len() - 1] == k);
            }
        }
    }
}

/// The subdirectory indices among the first `n` entries are exactly the
/// subdirectories among them, in increasing order.
proof fn lemma_dir_indices(es: Seq<DirectoryEntry>, n: nat)
    requires
        n <= es.len(),
        es.len() <= usize::MAX,
    ensures
        forall|j: int| 0 <= j < dir_indices(es, n).len() ==> (#[trigger] dir_indices(es, n)[j]) < n && es[dir_indices(
            es,
            n,
        )[j] as int].is_dir,
        forall|j1: int, j2: int| 0 <= j1 < j2 < dir_indices(es, n).len() ==> #[trigger] dir_indices(es, n)[j1]
            < #[trigger] dir_indices(es, n)[j2],
        forall|k: int| 0 <= k < n && (#[trigger] es[k]).is_dir ==> dir_indices(es, n).contains(k as usize),
    decreases n,
{
    if n > 0 {
        lemma_dir_indices(es, (n - 1) as nat);
        assert(((n - 1) as usize) as int == n - 1);
        let prev = dir_indices(es, (n - 1) as nat);
        let cur = dir_indices(es, n);
        assert forall|k: int| 0 <= k < n && (#[trigger] es[k]).is_dir implies cur.contains(k as usize) by {
            if k < n - 1 {
                let j = choose|j: int| 0 <= j < prev.len() && prev[j] == k as usize;
                assert(cur[j] == k as usize);
            } else {
                assert(cur[cur.len() - 1] == k as usize);
            }
        }
    }
}

/// Scanning a directory finds every script file of the platform among its
/// entries, whatever the other entries are, and nothing else; it keeps every
/// subdirectory for the search, and nothing else; both in entry order.
pub proof fn law_scan_finds_exactly_the_scripts(es: Seq<DirectoryEntry>, platform: Platform)
    requires
        es.len() <= usize::MAX,
    ensures
        forall|k: int| 0 <= k < es.len() && !(#[trigger] es[k]).is_dir && parts_of_file_name(es[k].name@, platform) is Some
            ==> exists|j: int| 0 <= j < script_indices(es, platform, es.len()).len() && script_indices(es, platform, es.len())[j] == k,
        forall|j: int| 0 <= j < script_indices(es, platform, es.len()).len() ==> {
            let k = #[trigger] script_indices(es, platform, es.len())[j];
            k < es.len() && !es[k as int].is_dir && parts_of_file_name(es[k as int].name@, platform) is Some
        },
        forall|k: int| 0 <= k < es.len() && (#[trigger] es[k]).is_dir ==> dir_indices(es, es.len()).contains(k as usize),
        forall|j: int| 0 <= j < dir_indices(es, es.len()).len() ==> es[(#[trigger] dir_indices(es, es.len())[j]) as int].is_dir,
{
    lemma_script_indices(es, platform, es.len());
    lemma_dir_indices(es, es.len());
    assert forall|k: int| 0 <= k < es.len() && !(#[trigger] es[k]).is_dir && parts_of_file_name(es[k].name@, platform) is Some
        implies exists|j: int| 0 <= j < script_indices(es, platform, es.len()).len() && script_indices(es, platform, es.len())[j] == k by {
        assert(is_script_entry(es[k], platform));
    }
}

/// Sorts one directory's entries into the script files of the platform (with
/// their command parts) and the subdirectories to search next, keeping the
/// order of the entries; other files are passed over.
pub fn scan_directory(entries: &Vec<DirectoryEntry>, platform: Platform) -> (r: DirectoryScan)
    ensures
        r.subdirs@ == dir_indices(entries@, entries@.len()),
        found_scripts_are(r.scripts@, entries@, platform, script_indices(entries@, platform, entries@.len())),
        forall|k: int| 0 <= k < entries@.len() && !(#[trigger] entries@[k]).is_dir && parts_of_file_name(
            entries@[k].name@,
            platform,
        ) is Some ==> exists|j: int| 0 <= j < r.scripts@.len() && r.scripts@[j].entry == k,
        forall|j: int| 0 <= j < r.scripts@.len() ==> !entries@[(#[trigger] r.scripts@[j]).entry as int].is_dir,
        forall|k: int| 0 <= k < entries@.len() && (#[trigger] entries@[k]).is_dir ==> r.subdirs@.contains(k as usize),
{
    let mut scripts: Vec<FoundScript> = Vec::new();
    let mut subdirs: Vec<usize> = Vec::new();
    let mut i: usize = 0;
    while i < entries.len()
        invariant
            i <= entries@.len(),
            subdirs@ == dir_indices(entries@, i as nat),
            found_scripts_are(scripts@, entries@, platform, script_indices(entries@, platform, i as nat)),
        decreases entries@.len() - i,
    {
        let e = &entries[i];
        if e.is_dir {
            subdirs.push(i);
        } else {
            match script_parts_from_file_name(e.name.as_slice(), platform) {
                Some(parts) => {
                    let ghost before = scripts@;
                    assert(is_script_entry(entries@[i as int], platform));
                    assert(script_indices(entries@, platform, (i + 1) as nat) == script_indices(
                        entries@,
                        platform,
                        i as nat,
                    ).push(i));
                    scripts.push(FoundScript { entry: i, parts });
                    assert(found_scripts_are(
                        scripts@,
                        entries@,
                        platform,
                        script_indices(entries@, platform, (i + 1) as nat),
                    )) by {
                        let idx = script_indices(entries@, platform, (i + 1) as nat);
                        assert forall|k: int| 0 <= k < scripts@.len() implies {
                            &&& (#[trigger] scripts@[k]).entry == idx[k]
                            &&& idx[k] < entries@.len()
                            &&& parts_of_file_name(entries@[idx[k] as int].name@, platform) == Some(scripts@[k].parts@)
                        } by {
                            if k < before.len() {
                                assert(scripts@[k] == before[k]);
                            }
                        }
                    }
                },
                None => {
                    assert(!is_script_entry(entries@[i as int], platform));
                },
            }
        }
        i = i + 1;
    }
    let r = DirectoryScan { scripts, subdirs };
    proof {
        assert(entries@.len() <= usize::MAX);
        law_scan_finds_exactly_the_scripts(entries@, platform);
        let idx = script_indices(entries@, platform, entries@.len());
        assert forall|k: int| 0 <= k < entries@.len() && !(#[trigger] entries@[k]).is_dir && parts_of_file_name(
            entries@[k].name@,
            platform,
        ) is Some implies exists|j: int| 0 <= j < r.scripts@.len() && r.scripts@[j].entry == k by {
            let j = choose|j: int| 0 <= j < idx.len() && idx[j] == k;
            assert(r.scripts@[j].entry == idx[j]);
        }
        assert forall|j: int| 0 <= j < r.scripts@.len() implies !entries@[(#[trigger] r.scripts@[j]).entry as int].is_dir by {
            assert(r.scripts@[j].entry == idx[j]);
        }
    }
    r
}

} // verus!
