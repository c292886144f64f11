//! Byte-string primitives shared by the completion and script modules.
//!
//! Command words and script names are raw bytes (what the shell hands over),
//! so prefixes, equality and ordering are defined on `Seq<u8>`.
use vstd::prelude::*;

verus! {

/// `start` is a prefix of `full`.
pub open spec fn is_prefix(start: Seq<u8>, full: Seq<u8>) -> bool {
    start.len() <= full.len() && full.subrange(0, start.len() as int) == start
}

/// Strict lexicographic order on byte strings: the order in which
/// `OsString` and `[u8]` compare on Unix.
pub open spec fn lex_lt(a: Seq<u8>, b: Seq<u8>) -> bool
    decreases a.len(),
{
    if a.len() == 0 {
        b.len() > 0
    } else if b.len() == 0 {
        false
    } else if a[0] != b[0] {
        a[0] < b[0]
    } else {
        lex_lt(a.drop_first(), b.drop_first())
    }
}

/// The byte views of a sequence of byte vectors.
pub open spec fn views(ws: Seq<Vec<u8>>) -> Seq<Seq<u8>> {
    ws.map_values(|w: Vec<u8>| w@)
}

/// A sequence strictly increasing in `lex_lt`: sorted with no repeats.
pub open spec fn strictly_sorted(s: Seq<Seq<u8>>) -> bool {
    forall|i: int, j: int| 0 <= i < j < s.len() ==> lex_lt(#[trigger] s[i], #[trigger] s[j])
}

/// Result of comparing two byte strings.
#[derive(Clone, Copy, Debug, PartialEq, Eq)]
pub enum LexOrder {
    Less,
    Equal,
    Greater,
}

/// `lex_lt` is a total order: exactly one of `a < b`, `a == b`, `b < a`.
pub proof fn lemma_lex_lt_trichotomy(a: Seq<u8>, b: Seq<u8>)
    ensures
        lex_lt(a, b) || a == b || lex_lt(b, a),
        !(lex_lt(a, b) && lex_lt(b, a)),
    decreases a.len(),
{
    if a.len() == 0 {
        if b.len() == 0 {
            assert(a =~= b);
        }
    } else if b.len() == 0 {
    } else if a[0] != b[0] {
    } else {
        lemma_lex_lt_trichotomy(a.drop_first(), b.drop_first());
        if a.drop_first() == b.drop_first() {
            assert(a =~= seq![a[0]] + a.drop_first());
            assert(b =~= seq![b[0]] + b.drop_first());
        }
    }
}

/// `lex_lt` is transitive.
pub proof fn lemma_lex_lt_transitive(a: Seq<u8>, b: Seq<u8>, c: Seq<u8>)
    requires
        lex_lt(a, b),
        lex_lt(b, c),
    ensures
        lex_lt(a, c),
    decreases a.len(),
{
    if a.len() > 0 && b.len() > 0 && c.len() > 0 && a[0] == b[0] && b[0] == c[0] {
        lemma_lex_lt_transitive(a.drop_first(), b.drop_first(), c.drop_first());
    }
}

/// Whether `full` begins with `start`, byte by byte.
pub fn starts_with_bytes(full: &[u8], start: &[u8]) -> (r: bool)
    ensures
        r == is_prefix(start@, full@),
{
    if start.len() > full.len() {
        return false;
    }
    let mut i: usize = 0;
    while i < start.len()
        invariant
            start@.len() <= full@.len(),
            i <= start@.len(),
            forall|k: int| 0 <= k < i ==> full@[k] == start@[k],
        decreases start@.len() - i,
    {
        if full[i] != start[i] {
            assert(full@.subrange(0, start@.len() as int)[i as int] != start@[i as int]);
            return false;
        }
        i = i + 1;
    }
    assert(full@.subrange(0, start@.len() as int) =~= start@);
    true
}

/// Whether two byte strings are equal.
pub fn bytes_equal(a: &[u8], b: &[u8]) -> (r: bool)
    ensures
        r == (a@ == b@),
{
    if a.len() != b.len() {
        return false;
    }
    let mut i: usize = 0;
    while i < a.len()
        invariant
            a@.len() == b@.len(),
            i <= a@.len(),
            forall|k: int| 0 <= k < i ==> a@[k] == b@[k],
        decreases a@.len() - i,
    {
        if a[i] != b[i] {
            return false;
        }
        i = i + 1;
    }
    assert(a@ =~= b@);
    true
}

/// Three-way lexicographic comparison of two byte strings.
pub fn compare_bytes(a: &[u8], b: &[u8]) -> (r: LexOrder)
    ensures
        r == LexOrder::Less <==> lex_lt(a@, b@),
        r == LexOrder::Equal <==> a@ == b@,
        r == LexOrder::Greater <==> lex_lt(b@, a@),
{
    proof {
        lemma_lex_lt_trichotomy(a@, b@);
        assert(a@.skip(0) =~= a@);
        assert(b@.skip(0) =~= b@);
    }
    let mut i: usize = 0;
    while i < a.len() && i < b.len()
        invariant
            i <= a@.len(),
            i <= b@.len(),
            a@.take(i as int) == b@.take(i as int),
            lex_lt(a@, b@) == lex_lt(a@.skip(i as int), b@.skip(i as int)),
            lex_lt(b@, a@) == lex_lt(b@.skip(i as int), a@.skip(i as int)),
        decreases a@.len() - i,
    {
        let x = a[i];
        let y = b[i];
        if x < y {
            return LexOrder::Less;
        }
        if x > y {
            return LexOrder::Greater;
        }
        proof {
            assert(a@.skip(i as int).drop_first() =~= a@.skip(i + 1));
            assert(b@.skip(i as int).drop_first() =~= b@.skip(i + 1));
            assert(a@.take(i + 1) =~= a@.take(i as int).push(x));
            assert(b@.take(i + 1) =~= b@.take(i as int).push(y));
        }
        i = i + 1;
    }
    if a.len() < b.len() {
        LexOrder::Less
    } else if a.len() > b.len() {
        LexOrder::Greater
    } else {
        proof {
            assert(a@ =~= a@.take(i as int));
            assert(b@ =~= b@.take(i as int));
        }
        LexOrder::Equal
    }
}

/// Appends the bytes of `b` to `v`.
pub fn extend_bytes(v: &mut Vec<u8>, b: &[u8])
    ensures
        final(v)@ == old(v)@ + b@,
{
    let ghost start = v@;
    let mut i: usize = 0;
    while i < b.len()
        invariant
            i <= b@.len(),
            v@ == start + b@.take(i as int),
        decreases b@.len() - i,
    {
        v.push(b[i]);
        assert(start + b@.take(i + 1) =~= (start + b@.take(i as int)).push(b@[i as int]));
        i = i + 1;
    }
    assert(b@.take(b@.len() as int) =~= b@);
}

} // verus!
