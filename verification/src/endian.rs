//! Integers as bytes, in network byte order and in little-endian order.

use vstd::prelude::*;

verus! {

/// The two bytes of `v`, most significant first.
pub open spec fn be16(v: u16) -> Seq<u8> {
    seq![(v / 256) as u8, (v % 256) as u8]
}

/// The four bytes of `v`, most significant first.
pub open spec fn be32(v: u32) -> Seq<u8> {
    seq![
        (v / 0x1000000) as u8,
        ((v / 0x10000) % 256) as u8,
        ((v / 256) % 256) as u8,
        (v % 256) as u8,
    ]
}

/// The integer that two bytes at `i` stand for, most significant first.
pub open spec fn be16_at(b: Seq<u8>, i: int) -> u16 {
    (b[i] * 256 + b[i + 1]) as u16
}

/// The integer that four bytes at `i` stand for, most significant first.
pub open spec fn be32_at(b: Seq<u8>, i: int) -> u32 {
    (b[i] * 0x1000000 + b[i + 1] * 0x10000 + b[i + 2] * 256 + b[i + 3]) as u32
}

/// The two bytes of `v`, least significant first.
pub open spec fn le16(v: u16) -> Seq<u8> {
    seq![(v % 256) as u8, (v / 256) as u8]
}

/// The four bytes of `v`, least significant first.
pub open spec fn le32(v: u32) -> Seq<u8> {
    seq![
        (v % 256) as u8,
        ((v / 256) % 256) as u8,
        ((v / 0x10000) % 256) as u8,
        (v / 0x1000000) as u8,
    ]
}

/// The integer that two bytes at `i` stand for, least significant first.
pub open spec fn le16_at(b: Seq<u8>, i: int) -> u16 {
    (b[i] + b[i + 1] * 256) as u16
}

/// The integer that four bytes at `i` stand for, least significant first.
pub open spec fn le32_at(b: Seq<u8>, i: int) -> u32 {
    (b[i] + b[i + 1] * 256 + b[i + 2] * 0x10000 + b[i + 3] * 0x1000000) as u32
}

/// The integer that two bytes at `i` stand for, least significant first.
pub fn read_le16(b: &[u8], i: usize) -> (v: u16)
    requires
        i + 2 <= b@.len(),
    ensures
        v == le16_at(b@, i as int),
{
    b[i] as u16 + b[i + 1] as u16 * 256
}

/// The integer that four bytes at `i` stand for, least significant first.
pub fn read_le32(b: &[u8], i: usize) -> (v: u32)
    requires
        i + 4 <= b@.len(),
    ensures
        v == le32_at(b@, i as int),
{
    b[i] as u32 + b[i + 1] as u32 * 256 + b[i + 2] as u32 * 0x10000 + b[i + 3] as u32 * 0x1000000
}

/// The integer that four bytes at `i` stand for, most significant first.
pub fn read_be32(b: &[u8], i: usize) -> (v: u32)
    requires
        i + 4 <= b@.len(),
    ensures
        v == be32_at(b@, i as int),
{
    b[i] as u32 * 0x1000000 + b[i + 1] as u32 * 0x10000 + b[i + 2] as u32 * 256 + b[i + 3] as u32
}

/// Append the two bytes of `v`, least significant first.
pub fn push_le16(out: &mut Vec<u8>, v: u16)
    ensures
        final(out)@ == old(out)@ + le16(v),
{
    out.push((v % 256) as u8);
    out.push((v / 256) as u8);
    assert(out@ =~= old(out)@ + le16(v));
}

/// Append the four bytes of `v`, least significant first.
pub fn push_le32(out: &mut Vec<u8>, v: u32)
    ensures
        final(out)@ == old(out)@ + le32(v),
{
    out.push((v % 256) as u8);
    out.push(((v / 256) % 256) as u8);
    out.push(((v / 0x10000) % 256) as u8);
    out.push((v / 0x1000000) as u8);
    assert(out@ =~= old(out)@ + le32(v));
}

/// Reading two bytes gives back the integer they were written from.
pub proof fn lemma_le16_at(b: Seq<u8>, i: int, v: u16)
    requires
        0 <= i,
        i + 2 <= b.len(),
        b.subrange(i, i + 2) == le16(v),
    ensures
        le16_at(b, i) == v,
{
    let part = b.subrange(i, i + 2);
    assert(part[0] == b[i] && part[1] == b[i + 1]);
}

/// Reading four bytes gives back the integer they were written from.
pub proof fn lemma_le32_at(b: Seq<u8>, i: int, v: u32)
    requires
        0 <= i,
        i + 4 <= b.len(),
        b.subrange(i, i + 4) == le32(v),
    ensures
        le32_at(b, i) == v,
{
    let part = b.subrange(i, i + 4);
    assert(part[0] == b[i] && part[1] == b[i + 1] && part[2] == b[i + 2] && part[3] == b[i + 3]);
}

/// Reading two bytes gives back the integer they were written from.
pub proof fn lemma_be16_at(b: Seq<u8>, i: int, v: u16)
    requires
        0 <= i,
        i + 2 <= b.len(),
        b.subrange(i, i + 2) == be16(v),
    ensures
        be16_at(b, i) == v,
{
    let part = b.subrange(i, i + 2);
    assert(part[0] == b[i] && part[1] == b[i + 1]);
}

/// Reading four bytes gives back the integer they were written from.
pub proof fn lemma_be32_at(b: Seq<u8>, i: int, v: u32)
    requires
        0 <= i,
        i + 4 <= b.len(),
        b.subrange(i, i + 4) == be32(v),
    ensures
        be32_at(b, i) == v,
{
    let part = b.subrange(i, i + 4);
    assert(part[0] == b[i] && part[1] == b[i + 1] && part[2] == b[i + 2] && part[3] == b[i + 3]);
}

/// In network byte order every byte counts 256 times as much as the one after
/// it; in little-endian order, as the one before it.
pub proof fn law_byte_orders(v: u16, w: u32)
    ensures
        be16(v).len() == 2,
        be16(v)[0] * 256 + be16(v)[1] == v,
        le16(v).len() == 2,
        le16(v)[0] + le16(v)[1] * 256 == v,
        be32(w).len() == 4,
        ((be32(w)[0] * 256 + be32(w)[1]) * 256 + be32(w)[2]) * 256 + be32(w)[3] == w,
        le32(w).len() == 4,
        le32(w)[0] + (le32(w)[1] + (le32(w)[2] + le32(w)[3] * 256) * 256) * 256 == w,
{
}

/// What two or four bytes stand for, in each order.
pub proof fn law_bytes_stand_for(b: Seq<u8>, i: int)
    requires
        0 <= i,
        i + 4 <= b.len(),
    ensures
        be16_at(b, i) == b[i] * 256 + b[i + 1],
        le16_at(b, i) == b[i] + b[i + 1] * 256,
        be32_at(b, i) == ((b[i] * 256 + b[i + 1]) * 256 + b[i + 2]) * 256 + b[i + 3],
        le32_at(b, i) == b[i] + (b[i + 1] + (b[i + 2] + b[i + 3] * 256) * 256) * 256,
{
}

} // verus!
