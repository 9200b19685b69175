//! Persistence of a compiled corpus as one versioned blob.
//!
//! Layout: the header `ABLK` and a version byte, the number of rules as a
//! little-endian `u32`, then each rule as its UTF-8 length (little-endian
//! `u32`) followed by its UTF-8 bytes. Nothing may follow the last rule.
use vstd::prelude::*;
use vstd::slice::slice_subrange;
use vstd::string::StringSliceAdditionalSpecFns;
use vstd::utf8::{decode_utf8, encode_utf8, encode_utf8_decode_utf8, valid_utf8};
use crate::engine::{match_of, CompiledEngine};

verus! {

/// The fixed key under which the blob is stored.
pub const BLOCK_LIST_IDENT: &'static str = "blocklist";

/// The bytes every blob starts with: a tag and the format version.
pub open spec fn blob_header() -> Seq<u8> {
    seq![0x41u8, 0x42u8, 0x4cu8, 0x4bu8, 1u8]
}

/// A `u32` as four little-endian bytes.
pub open spec fn le32(n: u32) -> Seq<u8> {
    seq![(n & 0xff) as u8, ((n >> 8) & 0xff) as u8, ((n >> 16) & 0xff) as u8, ((n >> 24) & 0xff) as u8]
}

/// The `u32` that four little-endian bytes stand for.
pub open spec fn le32_value(b: Seq<u8>) -> u32 {
    (b[0] as u32) | ((b[1] as u32) << 8) | ((b[2] as u32) << 16) | ((b[3] as u32) << 24)
}

/// One rule: its encoded length, then its encoding.
pub open spec fn entry_bytes(line: Seq<char>) -> Seq<u8> {
    le32(encode_utf8(line).len() as u32) + encode_utf8(line)
}

pub open spec fn entries_bytes(lines: Seq<Seq<char>>) -> Seq<u8>
    decreases lines.len(),
{
    if lines.len() == 0 {
        Seq::empty()
    } else {
        entry_bytes(lines[0]) + entries_bytes(lines.drop_first())
    }
}

/// Whether every count and length of the corpus fits the blob's `u32` fields.
pub open spec fn fits_blob(lines: Seq<Seq<char>>) -> bool {
    lines.len() <= u32::MAX && forall|i: int|
        0 <= i < lines.len() ==> #[trigger] encode_utf8(lines[i]).len() <= u32::MAX
}

/// The blob that stores a corpus.
pub open spec fn blob_of(lines: Seq<Seq<char>>) -> Seq<u8> {
    blob_header() + le32(lines.len() as u32) + entries_bytes(lines)
}

/// Reads `count` rules that take up all of `b`.
pub open spec fn parse_entries(b: Seq<u8>, count: nat) -> Option<Seq<Seq<char>>>
    decreases count,
{
    if count == 0 {
        if b.len() == 0 {
            Some(Seq::empty())
        } else {
            None
        }
    } else if b.len() < 4 {
        None
    } else {
        let n = le32_value(b) as int;
        if b.len() < 4 + n {
            None
        } else if !valid_utf8(b.subrange(4, 4 + n)) {
            None
        } else {
            match parse_entries(b.subrange(4 + n, b.len() as int), (count - 1) as nat) {
                Some(rest) => Some(seq![decode_utf8(b.subrange(4, 4 + n))] + rest),
                None => None,
            }
        }
    }
}

/// The corpus a blob holds, or `None` where it is not a well-formed blob.
pub open spec fn parse_blob(b: Seq<u8>) -> Option<Seq<Seq<char>>> {
    if b.len() < 9 || b.subrange(0, 5) != blob_header() {
        None
    } else {
        parse_entries(b.subrange(9, b.len() as int), le32_value(b.subrange(5, 9)) as nat)
    }
}

/// Why a corpus could not be stored.
#[derive(Clone, Copy, Debug, PartialEq, Eq, Structural)]
pub enum StoreError {
    /// More rules, or a longer rule, than the blob's `u32` fields can count.
    TooLarge,
}

proof fn lemma_le32_round_trip(n: u32)
    ensures
        le32_value(le32(n)) == n,
{
    let b0 = (n & 0xff) as u8;
    let b1 = ((n >> 8) & 0xff) as u8;
    let b2 = ((n >> 16) & 0xff) as u8;
    let b3 = ((n >> 24) & 0xff) as u8;
    assert(((b0 as u32) | ((b1 as u32) << 8) | ((b2 as u32) << 16) | ((b3 as u32) << 24)) == n)
        by (bit_vector)
        requires
            b0 == (n & 0xff) as u8,
            b1 == ((n >> 8) & 0xff) as u8,
            b2 == ((n >> 16) & 0xff) as u8,
            b3 == ((n >> 24) & 0xff) as u8,
    ;
}

proof fn lemma_parse_entries_round_trip(lines: Seq<Seq<char>>)
    requires
        fits_blob(lines),
    ensures
        parse_entries(entries_bytes(lines), lines.len()) == Some(lines),
    decreases lines.len(),
{
    if lines.len() == 0 {
        assert(entries_bytes(lines).len() == 0);
        assert(lines =~= Seq::<Seq<char>>::empty());
    } else {
        let rest = lines.drop_first();
        assert(fits_blob(rest)) by {
            assert forall|i: int| 0 <= i < rest.len() implies #[trigger] encode_utf8(rest[i]).len() <= u32::MAX by {
                assert(rest[i] == lines[i + 1]);
            }
        }
        lemma_parse_entries_round_trip(rest);
        let e = encode_utf8(lines[0]);
        assert(e.len() <= u32::MAX) by {
            assert(encode_utf8(lines[0]).len() <= u32::MAX);
        }
        let n = e.len() as u32;
        lemma_le32_round_trip(n);
        vstd::utf8::encode_utf8_valid_utf8(lines[0]);
        encode_utf8_decode_utf8(lines[0]);
        let b = entries_bytes(lines);
        assert(b =~= le32(n) + e + entries_bytes(rest));
        assert(b.subrange(0, 4) =~= le32(n));
        assert(le32_value(b) == le32_value(b.subrange(0, 4)));
        assert(b.subrange(4, 4 + n as int) =~= e);
        assert(b.subrange(4 + n as int, b.len() as int) =~= entries_bytes(rest));
        assert(seq![lines[0]] + rest =~= lines);
    }
}

/// Reading the blob of a corpus gives the corpus back.
pub proof fn lemma_blob_round_trip(lines: Seq<Seq<char>>)
    requires
        fits_blob(lines),
    ensures
        parse_blob(blob_of(lines)) == Some(lines),
{
    let b = blob_of(lines);
    let n = lines.len() as u32;
    lemma_le32_round_trip(n);
    assert(b.subrange(0, 5) =~= blob_header());
    assert(b.subrange(5, 9) =~= le32(n));
    assert(b.subrange(9, b.len() as int) =~= entries_bytes(lines));
    lemma_parse_entries_round_trip(lines);
}

fn push_le32(out: &mut Vec<u8>, n: u32)
    ensures
        final(out)@ == old(out)@ + le32(n),
{
    out.push((n & 0xff) as u8);
    out.push(((n >> 8) & 0xff) as u8);
    out.push(((n >> 16) & 0xff) as u8);
    out.push(((n >> 24) & 0xff) as u8);
    assert(final(out)@ =~= old(out)@ + le32(n));
}

fn read_le32(b: &[u8], pos: usize) -> (r: u32)
    requires
        pos + 4 <= b@.len(),
    ensures
        r == le32_value(b@.subrange(pos as int, b@.len() as int)),
{
    (b[pos] as u32) | ((b[pos + 1] as u32) << 8) | ((b[pos + 2] as u32) << 16) | ((b[pos + 3] as u32) << 24)
}

/// Relies on std::str::from_utf8: the bytes read as text exactly when they
/// are valid UTF-8, and the text then has those bytes.
#[verifier::external_body]
fn utf8_text(b: &[u8]) -> (r: Option<&str>)
    ensures
        r is Some <==> valid_utf8(b@),
        r is Some ==> r->0.spec_bytes() == b@,
{
    match std::str::from_utf8(b) {
        Ok(s) => Some(s),
        Err(_) => None,
    }
}

proof fn lemma_entries_push(lines: Seq<Seq<char>>, x: Seq<char>)
    ensures
        entries_bytes(lines.push(x)) == entries_bytes(lines) + entry_bytes(x),
    decreases lines.len(),
{
    if lines.len() == 0 {
        let one = lines.push(x);
        assert(one.drop_first() =~= Seq::<Seq<char>>::empty());
        assert(entries_bytes(one.drop_first()) =~= Seq::<u8>::empty());
        assert(one[0] == x);
        assert(entries_bytes(one) =~= entry_bytes(x));
        assert(entries_bytes(lines) + entry_bytes(x) =~= entry_bytes(x));
    } else {
        lemma_entries_push(lines.drop_first(), x);
        assert(lines.push(x).drop_first() =~= lines.drop_first().push(x));
        assert(entries_bytes(lines.push(x)) =~= entries_bytes(lines) + entry_bytes(x));
    }
}

/// Stores a compiled corpus: its blob, or `TooLarge` where a count or a
/// length does not fit the blob's fields.
pub fn save(engine: &CompiledEngine) -> (r: Result<Vec<u8>, StoreError>)
    ensures
        r is Ok <==> fits_blob(engine.rule_lines()),
        r is Ok ==> r->Ok_0@ == blob_of(engine.rule_lines()),
{
    let rules = engine.rules();
    let ghost lines = rules.deep_view();
    if rules.len() > 0xffff_ffff {
        return Err(StoreError::TooLarge);
    }
    let mut out: Vec<u8> = Vec::new();
    out.push(0x41);
    out.push(0x42);
    out.push(0x4c);
    out.push(0x4b);
    out.push(1);
    push_le32(&mut out, rules.len() as u32);
    assert(out@ =~= blob_header() + le32(lines.len() as u32) + entries_bytes(lines.subrange(0, 0)));
    let mut i: usize = 0;
    while i < rules.len()
        invariant
            i <= lines.len(),
            lines == rules.deep_view(),
            lines == engine.rule_lines(),
            lines.len() <= u32::MAX,
            out@ == blob_header() + le32(lines.len() as u32) + entries_bytes(lines.subrange(0, i as int)),
            forall|k: int| 0 <= k < i ==> #[trigger] encode_utf8(lines[k]).len() <= u32::MAX,
        decreases lines.len() - i,
    {
        let bytes = rules[i].as_str().as_bytes();
        assert(bytes@ == encode_utf8(lines[i as int]));
        if bytes.len() > 0xffff_ffff {
            assert(!fits_blob(lines)) by {
                assert(encode_utf8(lines[i as int]).len() > u32::MAX);
            }
            return Err(StoreError::TooLarge);
        }
        let ghost before = out@;
        push_le32(&mut out, bytes.len() as u32);
        let mut k: usize = 0;
        while k < bytes.len()
            invariant
                k <= bytes@.len(),
                bytes@.len() <= u32::MAX,
                out@ == before + le32(bytes@.len() as u32) + bytes@.subrange(0, k as int),
            decreases bytes@.len() - k,
        {
            out.push(bytes[k]);
            assert(bytes@.subrange(0, k + 1) =~= bytes@.subrange(0, k as int).push(bytes@[k as int]));
            k = k + 1;
        }
        proof {
            assert(bytes@.subrange(0, bytes@.len() as int) =~= bytes@);
            assert(bytes@ == encode_utf8(lines[i as int]));
            lemma_entries_push(lines.subrange(0, i as int), lines[i as int]);
            assert(lines.subrange(0, i + 1) =~= lines.subrange(0, i as int).push(lines[i as int]));
        }
        i = i + 1;
    }
    assert(lines.subrange(0, lines.len() as int) =~= lines);
    Ok(out)
}

/// Reads a stored corpus and compiles it: `None` (not found) where nothing is
/// stored or the blob is not well formed.
pub fn load(stored: Option<&[u8]>) -> (r: Option<CompiledEngine>)
    ensures
        r is Some <==> (stored is Some && parse_blob(stored->0@) is Some),
        r is Some ==> r->0.rule_lines() == parse_blob(stored->0@)->0,
{
    match stored {
        None => None,
        Some(blob) => match read_blob(blob) {
            Some(rules) => Some(CompiledEngine::from_lines(rules)),
            None => None,
        },
    }
}

/// The corpus a blob holds, exactly when the blob is well formed.
pub fn read_blob(b: &[u8]) -> (r: Option<Vec<String>>)
    ensures
        r is Some <==> parse_blob(b@) is Some,
        r is Some ==> r->0.deep_view() == parse_blob(b@)->0,
{
    if b.len() < 9 || b[0] != 0x41 || b[1] != 0x42 || b[2] != 0x4c || b[3] != 0x4b || b[4] != 1 {
        proof {
            if b@.len() >= 9 {
                assert(b@.subrange(0, 5)[0] == b@[0]);
                assert(b@.subrange(0, 5)[1] == b@[1]);
                assert(b@.subrange(0, 5)[2] == b@[2]);
                assert(b@.subrange(0, 5)[3] == b@[3]);
                assert(b@.subrange(0, 5)[4] == b@[4]);
            }
        }
        return None;
    }
    assert(b@.subrange(0, 5) =~= blob_header());
    let count = read_le32(b, 5);
    assert(b@.subrange(5, b@.len() as int).subrange(0, 4) =~= b@.subrange(5, 9));
    assert(le32_value(b@.subrange(5, b@.len() as int)) == le32_value(b@.subrange(5, 9)));
    let ghost whole = b@.subrange(9, b@.len() as int);
    let mut out: Vec<String> = Vec::new();
    let mut pos: usize = 9;
    let mut k: u32 = 0;
    while k < count
        invariant
            9 <= pos <= b@.len(),
            k <= count,
            whole == b@.subrange(9, b@.len() as int),
            parse_blob(b@) == parse_entries(whole, count as nat),
            parse_entries(whole, count as nat) == match parse_entries(
                b@.subrange(pos as int, b@.len() as int),
                (count - k) as nat,
            ) {
                Some(rest) => Some(out.deep_view() + rest),
                None => None::<Seq<Seq<char>>>,
            },
        decreases count - k,
    {
        let ghost tail = b@.subrange(pos as int, b@.len() as int);
        if b.len() - pos < 4 {
            return None;
        }
        let n = read_le32(b, pos);
        if b.len() - pos - 4 < n as usize {
            return None;
        }
        let body = slice_subrange(b, pos + 4, pos + 4 + n as usize);
        assert(body@ =~= tail.subrange(4, 4 + n as int));
        match utf8_text(body) {
            None => {
                return None;
            },
            Some(text) => {
                proof {
                    encode_utf8_decode_utf8(text@);
                }
                let ghost before = out.deep_view();
                out.push(text.to_owned());
                assert(out.deep_view() =~= before.push(decode_utf8(body@)));
                assert(tail.subrange(4 + n as int, tail.len() as int) =~= b@.subrange(
                    pos + 4 + n as int,
                    b@.len() as int,
                ));
                proof {
                    let after = b@.subrange(pos + 4 + n as int, b@.len() as int);
                    match parse_entries(after, (count - k - 1) as nat) {
                        Some(rest) => {
                            assert(before + (seq![decode_utf8(body@)] + rest) =~= before.push(
                                decode_utf8(body@),
                            ) + rest);
                        },
                        None => {},
                    }
                }
                pos = pos + 4 + n as usize;
                k = k + 1;
            },
        }
    }
    if pos != b.len() {
        return None;
    }
    assert(out.deep_view() + Seq::<Seq<char>>::empty() =~= out.deep_view());
    Some(out)
}

/// Storing a compiled corpus and loading it back, with no fetch between,
/// gives an engine built from the same rules, which gives the same outcome
/// for every request.
pub proof fn save_load_round_trip(engine: CompiledEngine, blob: Seq<u8>, loaded: CompiledEngine)
    requires
        fits_blob(engine.rule_lines()),
        blob == blob_of(engine.rule_lines()),
        loaded.rule_lines() == parse_blob(blob)->0,
    ensures
        parse_blob(blob) == Some(engine.rule_lines()),
        loaded.rule_lines() == engine.rule_lines(),
        forall|url: Seq<char>, source: Seq<char>, rtype: Seq<char>|
            #[trigger] match_of(loaded.rule_lines(), url, source, rtype) == match_of(
                engine.rule_lines(),
                url,
                source,
                rtype,
            ),
{
    lemma_blob_round_trip(engine.rule_lines());
}

} // verus!
