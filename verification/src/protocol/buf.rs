//! Byte buffers: what the messages are written to and read from.

use bytes::{Buf, BufMut, Bytes};
use vstd::prelude::*;

use crate::endian::{be16, be16_at, be32, be32_at};

verus! {

/// `bytes::Bytes`, a cheaply clonable run of bytes.
#[verifier::external_type_specification]
#[verifier::external_body]
pub struct ExBytes(bytes::Bytes);

/// The bytes that a `Bytes` holds.
pub uninterp spec fn bytes_seq(b: Bytes) -> Seq<u8>;

/// `<Bytes as Clone>::clone`: a handle to the same bytes.
pub assume_specification[ <bytes::Bytes as Clone>::clone ](b: &bytes::Bytes) -> (r: bytes::Bytes)
    ensures
        bytes_seq(r) == bytes_seq(*b),
;

/// `Bytes::new`: holds no byte.
#[verifier::external_body]
pub(crate) fn bytes_new() -> (b: Bytes)
    ensures
        bytes_seq(b) == Seq::<u8>::empty(),
{
    Bytes::new()
}

/// `<Bytes as From<Vec<u8>>>::from`: holds the bytes of the vector.
#[verifier::external_body]
pub(crate) fn bytes_from_vec(v: Vec<u8>) -> (b: Bytes)
    ensures
        bytes_seq(b) == v@,
{
    Bytes::from(v)
}

/// `Bytes::copy_from_slice`: holds the bytes of the slice.
#[verifier::external_body]
pub(crate) fn bytes_copy_from_slice(data: &[u8]) -> (b: Bytes)
    ensures
        bytes_seq(b) == data@,
{
    Bytes::copy_from_slice(data)
}

/// `<Bytes as AsRef<[u8]>>::as_ref`: the bytes held, as a slice.
#[verifier::external_body]
pub(crate) fn bytes_as_ref(b: &Bytes) -> (s: &[u8])
    ensures
        s@ == bytes_seq(*b),
{
    b.as_ref()
}

/// `BufMut::put_u8` on a vector: appends the byte.
#[verifier::external_body]
pub(crate) fn put_u8(buf: &mut Vec<u8>, v: u8)
    ensures
        final(buf)@ == old(buf)@.push(v),
{
    buf.put_u8(v)
}

/// `BufMut::put_u16` on a vector: appends two bytes, most significant first.
#[verifier::external_body]
pub(crate) fn put_u16(buf: &mut Vec<u8>, v: u16)
    ensures
        final(buf)@ == old(buf)@ + be16(v),
{
    buf.put_u16(v)
}

/// `BufMut::put_u32` on a vector: appends four bytes, most significant first.
#[verifier::external_body]
pub(crate) fn put_u32(buf: &mut Vec<u8>, v: u32)
    ensures
        final(buf)@ == old(buf)@ + be32(v),
{
    buf.put_u32(v)
}

/// `BufMut::put_i32` on a vector: appends the four bytes of the two's
/// complement representation, most significant first.
#[verifier::external_body]
pub(crate) fn put_i32(buf: &mut Vec<u8>, v: i32)
    ensures
        final(buf)@ == old(buf)@ + be32(v as u32),
{
    buf.put_i32(v)
}

/// `BufMut::put_slice` on a vector: appends the bytes of the slice.
#[verifier::external_body]
pub(crate) fn put_slice(buf: &mut Vec<u8>, src: &[u8])
    ensures
        final(buf)@ == old(buf)@ + src@,
{
    buf.put_slice(src)
}

/// `Buf::get_u8` on a slice: takes the first byte off.
#[verifier::external_body]
pub(crate) fn get_u8(buf: &mut &[u8]) -> (v: u8)
    requires
        old(buf)@.len() >= 1,
    ensures
        v == old(buf)@[0],
        final(buf)@ == old(buf)@.skip(1),
{
    buf.get_u8()
}

/// `Buf::get_u16` on a slice: takes two bytes off, most significant first.
#[verifier::external_body]
pub(crate) fn get_u16(buf: &mut &[u8]) -> (v: u16)
    requires
        old(buf)@.len() >= 2,
    ensures
        v == be16_at(old(buf)@, 0),
        final(buf)@ == old(buf)@.skip(2),
{
    buf.get_u16()
}

/// `Buf::get_u32` on a slice: takes four bytes off, most significant first.
#[verifier::external_body]
pub(crate) fn get_u32(buf: &mut &[u8]) -> (v: u32)
    requires
        old(buf)@.len() >= 4,
    ensures
        v == be32_at(old(buf)@, 0),
        final(buf)@ == old(buf)@.skip(4),
{
    buf.get_u32()
}

/// `Buf::get_i32` on a slice: takes four bytes off, the two's complement
/// representation with its most significant byte first.
#[verifier::external_body]
pub(crate) fn get_i32(buf: &mut &[u8]) -> (v: i32)
    requires
        old(buf)@.len() >= 4,
    ensures
        v == be32_at(old(buf)@, 0) as i32,
        final(buf)@ == old(buf)@.skip(4),
{
    buf.get_i32()
}

/// `Buf::copy_to_slice` on a slice: takes the bytes off that fill an array.
#[verifier::external_body]
pub(crate) fn get_array<const N: usize>(buf: &mut &[u8]) -> (a: [u8; N])
    requires
        old(buf)@.len() >= N,
    ensures
        a@ == old(buf)@.take(N as int),
        final(buf)@ == old(buf)@.skip(N as int),
{
    let mut a = [0u8; N];
    buf.copy_to_slice(&mut a);
    a
}

/// `Buf::advance` on a slice: drops the first `n` bytes.
#[verifier::external_body]
pub(crate) fn advance(buf: &mut &[u8], n: usize)
    requires
        old(buf)@.len() >= n,
    ensures
        final(buf)@ == old(buf)@.skip(n as int),
{
    buf.advance(n)
}

/// `Buf::copy_to_bytes` on a slice: takes the first `n` bytes off.
#[verifier::external_body]
pub(crate) fn get_bytes(buf: &mut &[u8], n: usize) -> (b: Bytes)
    requires
        old(buf)@.len() >= n,
    ensures
        bytes_seq(b) == old(buf)@.take(n as int),
        final(buf)@ == old(buf)@.skip(n as int),
{
    buf.copy_to_bytes(n)
}

} // verus!
