//! Fixed-width integers as octets, in both byte orders.
//!
//! CCSDS headers are big-endian by standard. cFE payloads are raw C structs and
//! follow the target, which for the builds this crate talks to is little-endian.

use vstd::prelude::*;

verus! {

/// The big-endian 16-bit value at `at`.
pub open spec fn be16(b: Seq<u8>, at: int) -> int {
    b[at] * 0x100 + b[at + 1]
}

/// The big-endian 32-bit value at `at`.
pub open spec fn be32(b: Seq<u8>, at: int) -> int {
    be16(b, at) * 0x1_0000 + be16(b, at + 2)
}

/// The little-endian 32-bit value at `at`.
pub open spec fn le32(b: Seq<u8>, at: int) -> int {
    b[at] + b[at + 1] * 0x100 + b[at + 2] * 0x1_0000 + b[at + 3] * 0x100_0000
}

/// A 16-bit value as two octets, most significant first.
pub open spec fn be16_octets(v: int) -> Seq<u8> {
    seq![(v / 0x100 % 0x100) as u8, (v % 0x100) as u8]
}

/// A 32-bit value as four octets, most significant first.
pub open spec fn be32_octets(v: int) -> Seq<u8> {
    be16_octets(v / 0x1_0000) + be16_octets(v % 0x1_0000)
}

/// A 32-bit value as four octets, least significant first.
pub open spec fn le32_octets(v: int) -> Seq<u8> {
    seq![
        (v % 0x100) as u8,
        (v / 0x100 % 0x100) as u8,
        (v / 0x1_0000 % 0x100) as u8,
        (v / 0x100_0000 % 0x100) as u8,
    ]
}

/// 32-bit values back to back, each least significant octet first.
pub open spec fn le32_run(words: Seq<u32>) -> Seq<u8> {
    Seq::new(4 * words.len(), |i: int| le32_octets(words[i / 4] as int)[i % 4])
}

/// `b` with `octets` written over it starting at `at`.
pub open spec fn overwrite(b: Seq<u8>, at: int, octets: Seq<u8>) -> Seq<u8> {
    Seq::new(
        b.len(),
        |i: int| if at <= i < at + octets.len() { octets[i - at] } else { b[i] },
    )
}

pub fn read_be16(b: &[u8], at: usize) -> (v: u16)
    requires
        at + 2 <= b@.len(),
    ensures
        v == be16(b@, at as int),
{
    b[at] as u16 * 0x100 + b[at + 1] as u16
}

pub fn read_be32(b: &[u8], at: usize) -> (v: u32)
    requires
        at + 4 <= b@.len(),
    ensures
        v == be32(b@, at as int),
{
    assert(at + 4 <= b.len());
    read_be16(b, at) as u32 * 0x1_0000 + read_be16(b, at + 2) as u32
}

pub fn read_le32(b: &[u8], at: usize) -> (v: u32)
    requires
        at + 4 <= b@.len(),
    ensures
        v == le32(b@, at as int),
{
    b[at] as u32 + b[at + 1] as u32 * 0x100 + b[at + 2] as u32 * 0x1_0000
        + b[at + 3] as u32 * 0x100_0000
}

pub fn write_be16(out: &mut [u8], at: usize, v: u16)
    requires
        at + 2 <= old(out)@.len(),
    ensures
        final(out)@ == overwrite(old(out)@, at as int, be16_octets(v as int)),
{
    out[at] = (v / 0x100) as u8;
    out[at + 1] = (v % 0x100) as u8;
}

pub fn write_be32(out: &mut [u8], at: usize, v: u32)
    requires
        at + 4 <= old(out)@.len(),
    ensures
        final(out)@ == overwrite(old(out)@, at as int, be32_octets(v as int)),
{
    assert(at + 4 <= out.len());
    write_be16(out, at, (v / 0x1_0000) as u16);
    write_be16(out, at + 2, (v % 0x1_0000) as u16);
}

/// Copy `src` over `out` starting at `at`.
pub fn write_octets(out: &mut [u8], at: usize, src: &[u8])
    requires
        at + src@.len() <= old(out)@.len(),
    ensures
        final(out)@ == overwrite(old(out)@, at as int, src@),
{
    let n: usize = src.len();
    let mut i: usize = 0;
    while i < n
        invariant
            n == src@.len(),
            i <= n,
            at + n <= out@.len(),
            out@ == overwrite(old(out)@, at as int, src@.take(i as int)),
        decreases n - i,
    {
        assert(at + i < out.len());
        out[at + i] = src[i];
        i = i + 1;
    }
    assert(src@.take(n as int) =~= src@);
}

/// Append a 32-bit value to `out`, least significant octet first.
pub fn push_le32(out: &mut Vec<u8>, v: u32)
    ensures
        final(out)@ == old(out)@ + le32_octets(v as int),
{
    out.push((v % 0x100) as u8);
    out.push((v / 0x100 % 0x100) as u8);
    out.push((v / 0x1_0000 % 0x100) as u8);
    out.push((v / 0x100_0000) as u8);
}

/// Append 32-bit values to `out`, each least significant octet first.
pub fn push_le32_run(out: &mut Vec<u8>, words: &[u32])
    ensures
        final(out)@ == old(out)@ + le32_run(words@),
{
    let n: usize = words.len();
    let mut i: usize = 0;
    assert(le32_run(words@.take(0)) =~= Seq::<u8>::empty());
    while i < n
        invariant
            n == words@.len(),
            i <= n,
            out@ == old(out)@ + le32_run(words@.take(i as int)),
        decreases n - i,
    {
        push_le32(out, words[i]);
        proof {
            lemma_le32_run_grows(words@.take(i as int), words@[i as int]);
            assert(words@.take(i as int).push(words@[i as int]) =~= words@.take(i + 1));
        }
        i = i + 1;
    }
    assert(words@.take(n as int) =~= words@);
}

/// Append all of `src` to `out`.
pub fn push_octets(out: &mut Vec<u8>, src: &[u8])
    ensures
        final(out)@ == old(out)@ + src@,
{
    let n: usize = src.len();
    let mut i: usize = 0;
    while i < n
        invariant
            n == src@.len(),
            i <= n,
            out@ == old(out)@ + src@.take(i as int),
        decreases n - i,
    {
        out.push(src[i]);
        i = i + 1;
    }
    assert(src@.take(n as int) =~= src@);
}

/// A fresh copy of `src`.
pub fn to_vec(src: &[u8]) -> (out: Vec<u8>)
    ensures
        out@ == src@,
{
    let mut out: Vec<u8> = Vec::new();
    push_octets(&mut out, src);
    out
}

pub proof fn lemma_le32_round_trip(v: u32)
    ensures
        le32(le32_octets(v as int), 0) == v,
{
}

/// Each value of a run reads back from its place, whatever follows the run.
pub proof fn lemma_le32_run_reads_back(words: Seq<u32>, rest: Seq<u8>, k: int)
    requires
        0 <= k < words.len(),
    ensures
        le32(le32_run(words) + rest, 4 * k) == words[k],
{
    let b = le32_run(words) + rest;
    let v = le32_octets(words[k] as int);
    assert(b[4 * k] == v[0]);
    assert(b[4 * k + 1] == v[1]);
    assert(b[4 * k + 2] == v[2]);
    assert(b[4 * k + 3] == v[3]);
    lemma_le32_round_trip(words[k]);
}

/// A run grows by the octets of each value appended to it.
pub proof fn lemma_le32_run_grows(words: Seq<u32>, v: u32)
    ensures
        le32_run(words.push(v)) == le32_run(words) + le32_octets(v as int),
{
    assert(le32_run(words.push(v)) =~= le32_run(words) + le32_octets(v as int));
}

/// Writing octets over a buffer changes those octets alone.
pub proof fn an_overwrite_stays_in_its_place(b: Seq<u8>, at: int, octets: Seq<u8>)
    requires
        0 <= at,
        at + octets.len() <= b.len(),
    ensures
        overwrite(b, at, octets).len() == b.len(),
        overwrite(b, at, octets).take(at) == b.take(at),
        overwrite(b, at, octets).subrange(at, at + octets.len()) == octets,
        overwrite(b, at, octets).skip(at + octets.len()) == b.skip(at + octets.len()),
{
    assert(overwrite(b, at, octets).take(at) =~= b.take(at));
    assert(overwrite(b, at, octets).subrange(at, at + octets.len()) =~= octets);
    assert(overwrite(b, at, octets).skip(at + octets.len()) =~= b.skip(at + octets.len()));
}

/// In either order of octets a number is read back from its own, and only the order
/// differs.
pub proof fn both_orders_read_back(v: u32, w: u16)
    ensures
        be32(be32_octets(v as int), 0) == v,
        le32(le32_octets(v as int), 0) == v,
        be16(be16_octets(w as int), 0) == w,
        be32_octets(v as int) == le32_octets(v as int).reverse(),
        le32_octets(v as int)[0] == v % 0x100,
        be16_octets(w as int)[1] == w % 0x100,
{
    lemma_le32_round_trip(v);
    let n = v as int;
    assert(be32_octets(n)[0] == n / 0x100_0000);
    assert(be32_octets(n)[1] == n / 0x1_0000 % 0x100);
    assert(be32_octets(n)[2] == n / 0x100 % 0x100);
    assert(be32_octets(n)[3] == n % 0x100);
    assert(be32_octets(n) =~= le32_octets(n).reverse());
}

} // verus!
