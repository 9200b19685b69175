//! The order in which a rule set keeps its lines: lexicographic order of
//! their UTF-8 bytes, which is also the order of `str`'s `Ord`.
use vstd::prelude::*;
use vstd::utf8::{encode_utf8, encode_utf8_decode_utf8};

verus! {

/// Strict lexicographic order on byte sequences.
pub open spec fn bytes_lt(a: Seq<u8>, b: Seq<u8>) -> bool
    decreases a.len(),
{
    if a.len() == 0 {
        b.len() > 0
    } else if b.len() == 0 {
        false
    } else if a[0] != b[0] {
        a[0] < b[0]
    } else {
        bytes_lt(a.drop_first(), b.drop_first())
    }
}

/// Strict order on rule lines: by their UTF-8 encoding.
pub open spec fn line_lt(x: Seq<char>, y: Seq<char>) -> bool {
    bytes_lt(encode_utf8(x), encode_utf8(y))
}

pub proof fn lemma_bytes_lt_irreflexive(a: Seq<u8>)
    ensures
        !bytes_lt(a, a),
    decreases a.len(),
{
    if a.len() > 0 {
        lemma_bytes_lt_irreflexive(a.drop_first());
    }
}

pub proof fn lemma_bytes_lt_transitive(a: Seq<u8>, b: Seq<u8>, c: Seq<u8>)
    requires
        bytes_lt(a, b),
        bytes_lt(b, c),
    ensures
        bytes_lt(a, c),
    decreases a.len(),
{
    if a.len() > 0 && b.len() > 0 && c.len() > 0 && a[0] == b[0] && b[0] == c[0] {
        lemma_bytes_lt_transitive(a.drop_first(), b.drop_first(), c.drop_first());
    }
}

pub proof fn lemma_bytes_lt_total(a: Seq<u8>, b: Seq<u8>)
    requires
        a != b,
    ensures
        bytes_lt(a, b) || bytes_lt(b, a),
    decreases a.len(),
{
    if a.len() > 0 && b.len() > 0 && a[0] == b[0] {
        if a.drop_first() == b.drop_first() {
            assert(a =~= seq![a[0]] + a.drop_first());
            assert(b =~= seq![b[0]] + b.drop_first());
        }
        lemma_bytes_lt_total(a.drop_first(), b.drop_first());
    } else if a.len() == 0 && b.len() == 0 {
        assert(a =~= b);
    }
}

pub proof fn lemma_line_lt_irreflexive(x: Seq<char>)
    ensures
        !line_lt(x, x),
{
    lemma_bytes_lt_irreflexive(encode_utf8(x));
}

pub proof fn lemma_line_lt_transitive(x: Seq<char>, y: Seq<char>, z: Seq<char>)
    requires
        line_lt(x, y),
        line_lt(y, z),
    ensures
        line_lt(x, z),
{
    lemma_bytes_lt_transitive(encode_utf8(x), encode_utf8(y), encode_utf8(z));
}

pub proof fn lemma_line_lt_asymmetric(x: Seq<char>, y: Seq<char>)
    requires
        line_lt(x, y),
    ensures
        !line_lt(y, x),
{
    if line_lt(y, x) {
        lemma_line_lt_transitive(x, y, x);
        lemma_line_lt_irreflexive(x);
    }
}

/// Two distinct lines are ordered one way or the other.
pub proof fn lemma_line_lt_total(x: Seq<char>, y: Seq<char>)
    requires
        x != y,
    ensures
        line_lt(x, y) || line_lt(y, x),
{
    encode_utf8_decode_utf8(x);
    encode_utf8_decode_utf8(y);
    lemma_bytes_lt_total(encode_utf8(x), encode_utf8(y));
}

/// Whether `a` comes strictly before `b` in byte order.
pub fn bytes_less(a: &[u8], b: &[u8]) -> (r: bool)
    ensures
        r == bytes_lt(a@, b@),
{
    let mut i: usize = 0;
    assert(a@.subrange(0, a@.len() as int) =~= a@);
    assert(b@.subrange(0, b@.len() as int) =~= b@);
    while i < a.len() && i < b.len()
        invariant
            i <= a@.len(),
            i <= b@.len(),
            bytes_lt(a@, b@) == bytes_lt(a@.subrange(i as int, a@.len() as int), b@.subrange(i as int, b@.len() as int)),
        decreases a@.len() - i,
    {
        let ghost sa = a@.subrange(i as int, a@.len() as int);
        let ghost sb = b@.subrange(i as int, b@.len() as int);
        if a[i] != b[i] {
            return a[i] < b[i];
        }
        assert(sa.drop_first() =~= a@.subrange(i + 1, a@.len() as int));
        assert(sb.drop_first() =~= b@.subrange(i + 1, b@.len() as int));
        i = i + 1;
    }
    a.len() < b.len()
}

/// Whether line `x` comes strictly before line `y`.
pub fn line_less(x: &str, y: &str) -> (r: bool)
    ensures
        r == line_lt(x@, y@),
{
    bytes_less(x.as_bytes(), y.as_bytes())
}

} // verus!
