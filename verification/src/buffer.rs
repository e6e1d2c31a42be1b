//! The `bytes` crate's buffers, seen as byte sequences.

use bytes::{Buf, BufMut, Bytes, BytesMut};
use vstd::prelude::*;

use crate::wire::{be_bytes, be_value};

verus! {

/// `bytes::Bytes`: a shared, immutable run of bytes.
#[verifier::external_type_specification]
#[verifier::external_body]
pub struct ExBytes(bytes::Bytes);

/// `bytes::BytesMut`: a growable run of bytes.
#[verifier::external_type_specification]
#[verifier::external_body]
pub struct ExBytesMut(bytes::BytesMut);

/// The bytes that a `Bytes` holds (what is left to read of it).
pub uninterp spec fn bytes_view(buffer: Bytes) -> Seq<u8>;

/// The bytes that a `BytesMut` holds.
pub uninterp spec fn bytes_mut_view(buffer: BytesMut) -> Seq<u8>;

/// `Bytes::len`: how many bytes are held. Like every run of bytes in memory,
/// never more than `isize::MAX`.
#[verifier::external_body]
pub(crate) fn bytes_len(buffer: &Bytes) -> (len: usize)
    ensures
        len == bytes_view(*buffer).len(),
        len <= isize::MAX,
{
    buffer.len()
}

/// `Bytes::deref`: the bytes held, as a slice.
#[verifier::external_body]
pub(crate) fn bytes_slice(buffer: &Bytes) -> (slice: &[u8])
    ensures
        slice@ == bytes_view(*buffer),
{
    &buffer[..]
}

/// `Bytes::from(Vec<u8>)`: takes over the vector's bytes.
#[verifier::external_body]
pub(crate) fn bytes_from_vec(data: Vec<u8>) -> (buffer: Bytes)
    ensures
        bytes_view(buffer) == data@,
{
    Bytes::from(data)
}

/// `Bytes::clone`: another handle on the same bytes.
pub assume_specification[ <Bytes as Clone>::clone ](buffer: &Bytes) -> (copy: Bytes)
    ensures
        bytes_view(copy) == bytes_view(*buffer),
;

/// `Buf::get_u8` on `Bytes`: takes the first byte off.
#[verifier::external_body]
pub(crate) fn get_u8(buffer: &mut Bytes) -> (value: u8)
    requires
        bytes_view(*old(buffer)).len() >= 1,
    ensures
        value == bytes_view(*old(buffer))[0],
        bytes_view(*final(buffer)) == bytes_view(*old(buffer)).skip(1),
{
    buffer.get_u8()
}

/// `Buf::get_u16` on `Bytes`: takes a big-endian number off the front.
#[verifier::external_body]
pub(crate) fn get_u16(buffer: &mut Bytes) -> (value: u16)
    requires
        bytes_view(*old(buffer)).len() >= 2,
    ensures
        value == be_value(bytes_view(*old(buffer)).take(2)),
        bytes_view(*final(buffer)) == bytes_view(*old(buffer)).skip(2),
{
    buffer.get_u16()
}

/// `Buf::get_u32` on `Bytes`: takes a big-endian number off the front.
#[verifier::external_body]
pub(crate) fn get_u32(buffer: &mut Bytes) -> (value: u32)
    requires
        bytes_view(*old(buffer)).len() >= 4,
    ensures
        value == be_value(bytes_view(*old(buffer)).take(4)),
        bytes_view(*final(buffer)) == bytes_view(*old(buffer)).skip(4),
{
    buffer.get_u32()
}

/// `Buf::get_u64` on `Bytes`: takes a big-endian number off the front.
#[verifier::external_body]
pub(crate) fn get_u64(buffer: &mut Bytes) -> (value: u64)
    requires
        bytes_view(*old(buffer)).len() >= 8,
    ensures
        value == be_value(bytes_view(*old(buffer)).take(8)),
        bytes_view(*final(buffer)) == bytes_view(*old(buffer)).skip(8),
{
    buffer.get_u64()
}

/// `Buf::copy_to_slice` on `Bytes`: takes `N` bytes off the front.
#[verifier::external_body]
pub(crate) fn get_array<const N: usize>(buffer: &mut Bytes) -> (out: [u8; N])
    requires
        bytes_view(*old(buffer)).len() >= N,
    ensures
        out@ == bytes_view(*old(buffer)).take(N as int),
        bytes_view(*final(buffer)) == bytes_view(*old(buffer)).skip(N as int),
{
    let mut out = [0u8; N];
    buffer.copy_to_slice(&mut out);
    out
}

/// `Buf::copy_to_bytes` on `Bytes`: takes `len` bytes off the front as a
/// buffer of their own.
#[verifier::external_body]
pub(crate) fn get_bytes(buffer: &mut Bytes, len: usize) -> (out: Bytes)
    requires
        bytes_view(*old(buffer)).len() >= len,
    ensures
        bytes_view(out) == bytes_view(*old(buffer)).take(len as int),
        bytes_view(*final(buffer)) == bytes_view(*old(buffer)).skip(len as int),
{
    buffer.copy_to_bytes(len)
}

/// `BytesMut::with_capacity`: an empty buffer.
#[verifier::external_body]
pub(crate) fn new_buffer(capacity: usize) -> (buffer: BytesMut)
    requires
        capacity <= isize::MAX,
    ensures
        bytes_mut_view(buffer) == Seq::<u8>::empty(),
{
    BytesMut::with_capacity(capacity)
}

/// `BufMut::put_u8` on `BytesMut`: appends one byte.
#[verifier::external_body]
pub(crate) fn put_u8(buffer: &mut BytesMut, value: u8)
    requires
        bytes_mut_view(*old(buffer)).len() + 1 <= isize::MAX,
    ensures
        bytes_mut_view(*final(buffer)) == bytes_mut_view(*old(buffer)).push(value),
{
    buffer.put_u8(value)
}

/// `BufMut::put_u16` on `BytesMut`: appends the number, big-endian.
#[verifier::external_body]
pub(crate) fn put_u16(buffer: &mut BytesMut, value: u16)
    requires
        bytes_mut_view(*old(buffer)).len() + 2 <= isize::MAX,
    ensures
        bytes_mut_view(*final(buffer)) == bytes_mut_view(*old(buffer)) + be_bytes(value as nat, 2),
{
    buffer.put_u16(value)
}

/// `BufMut::put_u32` on `BytesMut`: appends the number, big-endian.
#[verifier::external_body]
pub(crate) fn put_u32(buffer: &mut BytesMut, value: u32)
    requires
        bytes_mut_view(*old(buffer)).len() + 4 <= isize::MAX,
    ensures
        bytes_mut_view(*final(buffer)) == bytes_mut_view(*old(buffer)) + be_bytes(value as nat, 4),
{
    buffer.put_u32(value)
}

/// `BufMut::put_u64` on `BytesMut`: appends the number, big-endian.
#[verifier::external_body]
pub(crate) fn put_u64(buffer: &mut BytesMut, value: u64)
    requires
        bytes_mut_view(*old(buffer)).len() + 8 <= isize::MAX,
    ensures
        bytes_mut_view(*final(buffer)) == bytes_mut_view(*old(buffer)) + be_bytes(value as nat, 8),
{
    buffer.put_u64(value)
}

/// `BytesMut::extend_from_slice`: appends the slice.
#[verifier::external_body]
pub(crate) fn put_slice(buffer: &mut BytesMut, data: &[u8])
    requires
        bytes_mut_view(*old(buffer)).len() + data@.len() <= isize::MAX,
    ensures
        bytes_mut_view(*final(buffer)) == bytes_mut_view(*old(buffer)) + data@,
{
    buffer.extend_from_slice(data)
}

/// `BytesMut::freeze`: the same bytes as an immutable buffer.
#[verifier::external_body]
pub(crate) fn freeze(buffer: BytesMut) -> (out: Bytes)
    ensures
        bytes_view(out) == bytes_mut_view(buffer),
{
    buffer.freeze()
}

} // verus!
