//! Bytes written over bytes, and little-endian words among them.

use vstd::prelude::*;

verus! {

/// The four bytes of a word, lowest first.
pub open spec fn le_bytes(x: u32) -> Seq<u8> {
    seq![
        (x % 256) as u8,
        (x / 256 % 256) as u8,
        (x / 65536 % 256) as u8,
        (x / 16777216) as u8,
    ]
}

/// The word whose bytes stand at `pos`.
pub open spec fn le_value(b: Seq<u8>, pos: int) -> u32 {
    (b[pos] + 256 * b[pos + 1] + 65536 * b[pos + 2] + 16777216 * b[pos + 3]) as u32
}

/// `b` written over `s` at `pos`.
pub open spec fn overwritten(s: Seq<u8>, pos: int, b: Seq<u8>) -> Seq<u8> {
    s.take(pos) + b + s.skip(pos + b.len())
}

/// A word comes back from its bytes.
pub proof fn word_round_trips(x: u32)
    ensures
        le_bytes(x).len() == 4,
        le_value(le_bytes(x), 0) == x,
{
    let a = x % 256;
    let b = x / 256 % 256;
    let c = x / 65536 % 256;
    let d = x / 16777216;
    assert(x == a + 256 * b + 65536 * c + 16777216 * d);
}

/// A word within the first part of a sequence does not depend on the rest.
pub proof fn lemma_value_in_prefix(a: Seq<u8>, b: Seq<u8>, pos: int)
    requires
        0 <= pos,
        pos + 4 <= a.len(),
    ensures
        le_value(a + b, pos) == le_value(a, pos),
{
}

/// A word within the second part of a sequence.
pub proof fn lemma_value_in_suffix(a: Seq<u8>, b: Seq<u8>, pos: int)
    requires
        0 <= pos,
        pos + 4 <= b.len(),
    ensures
        le_value(a + b, a.len() + pos) == le_value(b, pos),
{
}

/// Reads the word at `pos`.
pub fn read_u32(buf: &[u8], pos: usize) -> (v: u32)
    requires
        pos + 4 <= buf@.len(),
    ensures
        v == le_value(buf@, pos as int),
{
    buf[pos] as u32 + 256 * (buf[pos + 1] as u32) + 65536 * (buf[pos + 2] as u32) + 16777216 * (
    buf[pos + 3] as u32)
}

/// Writes the word `v` at `pos`.
pub fn put_u32(out: &mut [u8], pos: usize, v: u32)
    requires
        pos + 4 <= old(out)@.len(),
    ensures
        final(out)@ == overwritten(old(out)@, pos as int, le_bytes(v)),
        final(out)@.len() == old(out)@.len(),
{
    let ghost before = out@;
    out[pos] = (v % 256) as u8;
    out[pos + 1] = (v / 256 % 256) as u8;
    out[pos + 2] = (v / 65536 % 256) as u8;
    out[pos + 3] = (v / 16777216) as u8;
    assert(out@ =~= overwritten(before, pos as int, le_bytes(v)));
}

/// Writes `bytes` at `pos`.
pub fn put_bytes(out: &mut [u8], pos: usize, bytes: &[u8])
    requires
        pos + bytes@.len() <= old(out)@.len(),
    ensures
        final(out)@ == overwritten(old(out)@, pos as int, bytes@),
        final(out)@.len() == old(out)@.len(),
{
    let ghost before = out@;
    let n: usize = out.len();
    let mut i: usize = 0;
    assert(out@ =~= overwritten(before, pos as int, bytes@.take(0)));
    while i < bytes.len()
        invariant
            i <= bytes@.len(),
            n == before.len(),
            pos + bytes@.len() <= n,
            out@ == overwritten(before, pos as int, bytes@.take(i as int)),
            out@.len() == before.len(),
        decreases bytes.len() - i,
    {
        out[pos + i] = bytes[i];
        i = i + 1;
        assert(out@ =~= overwritten(before, pos as int, bytes@.take(i as int)));
    }
    assert(bytes@.take(bytes@.len() as int) =~= bytes@);
}

/// Appends `bytes`.
pub fn push_bytes(out: &mut Vec<u8>, bytes: &[u8])
    ensures
        final(out)@ == old(out)@ + bytes@,
{
    let ghost before = out@;
    let mut i: usize = 0;
    assert(out@ =~= before + bytes@.take(0));
    while i < bytes.len()
        invariant
            i <= bytes@.len(),
            out@ == before + bytes@.take(i as int),
        decreases bytes.len() - i,
    {
        out.push(bytes[i]);
        i = i + 1;
        assert(out@ =~= before + bytes@.take(i as int));
    }
    assert(bytes@.take(bytes@.len() as int) =~= bytes@);
}

/// Appends the word `v`.
pub fn push_u32(out: &mut Vec<u8>, v: u32)
    ensures
        final(out)@ == old(out)@ + le_bytes(v),
{
    let ghost before = out@;
    out.push((v % 256) as u8);
    out.push((v / 256 % 256) as u8);
    out.push((v / 65536 % 256) as u8);
    out.push((v / 16777216) as u8);
    assert(out@ =~= before + le_bytes(v));
}

/// Bytes written over others stand where they were put, and nothing else changes.
pub proof fn overwriting_stays_in_its_place(s: Seq<u8>, pos: int, b: Seq<u8>)
    requires
        0 <= pos,
        pos + b.len() <= s.len(),
    ensures
        overwritten(s, pos, b).len() == s.len(),
        forall|i: int|
            0 <= i < s.len() ==> #[trigger] overwritten(s, pos, b)[i] == (if pos <= i < pos + b.len() {
                b[i - pos]
            } else {
                s[i]
            }),
{
}

/// The bytes of a word are its digits to the base 256, lowest first.
pub proof fn word_is_its_bytes(x: u32)
    ensures
        le_bytes(x).len() == 4,
        le_bytes(x)[0] + 256 * le_bytes(x)[1] + 65536 * le_bytes(x)[2] + 16777216 * le_bytes(x)[3]
            == x,
{
    word_round_trips(x);
}

} // verus!
