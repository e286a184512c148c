//! The read buffer and the byte-level readers, as the `bytes` crate and std
//! provide them. Nothing in this file is proved: each contract restates what
//! the called function documents.

use vstd::prelude::*;
use vstd::utf8::*;
use bytes::Buf;
use bytes::BytesMut;
use crate::wire::{be_u16_at, be_u64_at};

verus! {

/// `bytes::BytesMut`, a growable byte buffer that can drop bytes from its
/// front.
#[verifier::external_type_specification]
#[verifier::external_body]
pub struct ExBytesMut(BytesMut);

/// The bytes a buffer holds, front first.
pub uninterp spec fn buffered(buf: BytesMut) -> Seq<u8>;

/// `BytesMut::with_capacity`: a buffer that holds no bytes.
#[verifier::external_body]
pub(crate) fn buffer_new() -> (buf: BytesMut)
    ensures
        buffered(buf) == Seq::<u8>::empty(),
{
    BytesMut::with_capacity(1024)
}

/// `BytesMut`'s `Deref` to a slice: all the bytes the buffer holds, in order.
#[verifier::external_body]
pub(crate) fn buffer_bytes(buf: &BytesMut) -> (bytes: &[u8])
    ensures
        bytes@ == buffered(*buf),
{
    &buf[..]
}

/// `BytesMut::extend_from_slice`: the given bytes are appended at the back.
#[verifier::external_body]
pub(crate) fn buffer_extend(buf: &mut BytesMut, data: &[u8])
    ensures
        buffered(*final(buf)) == buffered(*old(buf)) + data@,
{
    buf.extend_from_slice(data)
}

/// `Buf::advance` on a `BytesMut`: the first `count` bytes are dropped. It
/// panics when asked to drop more than the buffer holds.
#[verifier::external_body]
pub(crate) fn buffer_advance(buf: &mut BytesMut, count: usize)
    requires
        count <= buffered(*old(buf)).len(),
    ensures
        buffered(*final(buf)) == buffered(*old(buf)).skip(count as int),
{
    buf.advance(count)
}

/// `Buf::get_u16` on the slice from `at` on: the next two bytes as a
/// big-endian number. It panics on fewer than two bytes.
#[verifier::external_body]
pub(crate) fn get_u16_at(bytes: &[u8], at: usize) -> (v: u16)
    requires
        at + 2 <= bytes@.len(),
    ensures
        v == be_u16_at(bytes@, at as int),
{
    let mut rest = &bytes[at..];
    rest.get_u16()
}

/// `Buf::get_u64` on the slice from `at` on: the next eight bytes as a
/// big-endian number. It panics on fewer than eight bytes.
#[verifier::external_body]
pub(crate) fn get_u64_at(bytes: &[u8], at: usize) -> (v: u64)
    requires
        at + 8 <= bytes@.len(),
    ensures
        v == be_u64_at(bytes@, at as int),
{
    let mut rest = &bytes[at..];
    rest.get_u64()
}

/// `std::str::from_utf8`: the bytes as text exactly when they are valid
/// UTF-8, and then the text's encoding is those bytes.
#[verifier::external_body]
pub(crate) fn text_from_utf8(bytes: &[u8]) -> (text: Option<&str>)
    ensures
        text is Some <==> valid_utf8(bytes@),
        text is Some ==> encode_utf8(text->Some_0@) == bytes@,
{
    match std::str::from_utf8(bytes) {
        Ok(text) => Some(text),
        Err(_) => None,
    }
}

} // verus!
