//! Encoding messages into frames and parsing frames from bytes.

use vstd::prelude::*;
use vstd::slice::slice_subrange;
use vstd::utf8::*;
use crate::addr::Addr;
use crate::buffer::{get_u16_at, get_u64_at, text_from_utf8};
use crate::message::{Message, MessageView, ProtocolError};
use crate::wire::{addr_at, addr_bytes, addrs_at, addrs_bytes, frame, parse, u64_be, Parsed};

verus! {

/// Appends the eight bytes of `v`, most significant first.
fn put_u64(out: &mut Vec<u8>, v: u64)
    ensures
        final(out)@ == old(out)@ + u64_be(v),
{
    out.push((v / 0x100_0000_0000_0000) as u8);
    out.push(((v / 0x1_0000_0000_0000) % 256) as u8);
    out.push(((v / 0x100_0000_0000) % 256) as u8);
    out.push(((v / 0x1_0000_0000) % 256) as u8);
    out.push(((v / 0x100_0000) % 256) as u8);
    out.push(((v / 0x1_0000) % 256) as u8);
    out.push(((v / 0x100) % 256) as u8);
    out.push((v % 256) as u8);
    assert(out@ =~= old(out)@ + u64_be(v));
}

/// Appends the six bytes of an address.
fn put_addr(out: &mut Vec<u8>, addr: &Addr)
    ensures
        final(out)@ == old(out)@ + addr_bytes(*addr),
{
    out.push(addr.a);
    out.push(addr.b);
    out.push(addr.c);
    out.push(addr.d);
    out.push((addr.port / 256) as u8);
    out.push((addr.port % 256) as u8);
    assert(out@ =~= old(out)@ + addr_bytes(*addr));
}

/// Appends a copy of `bytes`.
fn put_bytes(out: &mut Vec<u8>, bytes: &[u8])
    ensures
        final(out)@ == old(out)@ + bytes@,
{
    let mut i: usize = 0;
    while i < bytes.len()
        invariant
            i <= bytes@.len(),
            out@ == old(out)@ + bytes@.subrange(0, i as int),
        decreases bytes@.len() - i,
    {
        out.push(bytes[i]);
        i += 1;
        assert(out@ =~= old(out)@ + bytes@.subrange(0, i as int));
    }
    assert(bytes@.subrange(0, i as int) =~= bytes@);
}

/// Encodes a message into its frame.
pub fn encode_frame(msg: &Message) -> (out: Vec<u8>)
    ensures
        out@ == frame(msg@),
{
    let mut out: Vec<u8> = Vec::new();
    match msg {
        Message::GetPeersRequest => {
            out.push(0u8);
        },
        Message::Ping(text) => {
            out.push(1u8);
            let bytes = text.as_str().as_bytes();
            put_u64(&mut out, bytes.len() as u64);
            put_bytes(&mut out, bytes);
        },
        Message::GetPeersResponse(addrs) => {
            out.push(2u8);
            put_u64(&mut out, addrs.len() as u64);
            let ghost head = out@;
            let mut i: usize = 0;
            while i < addrs.len()
                invariant
                    i <= addrs@.len(),
                    out@ == head + addrs_bytes(addrs@.subrange(0, i as int)),
                decreases addrs@.len() - i,
            {
                put_addr(&mut out, &addrs[i]);
                i += 1;
                assert(out@ =~= head + addrs_bytes(addrs@.subrange(0, i as int)));
            }
            assert(addrs@.subrange(0, i as int) =~= addrs@);
        },
        Message::Connect => {
            out.push(3u8);
        },
        Message::Connected(addr) => {
            out.push(4u8);
            put_addr(&mut out, addr);
        },
    }
    assert(out@ =~= frame(msg@));
    out
}

/// Reads the address that starts at `at`.
fn get_addr_at(buf: &[u8], at: usize) -> (addr: Addr)
    requires
        at + 6 <= buf@.len(),
    ensures
        addr == addr_at(buf@, at as int),
{
    let len = buf.len();
    assert(at + 6 <= len);
    let port = get_u16_at(buf, at + 4);
    Addr { a: buf[at], b: buf[at + 1], c: buf[at + 2], d: buf[at + 3], port }
}

/// Parses one frame from the head of `buf`.
///
/// Returns the message and the number of bytes its frame takes when `buf`
/// starts with a whole frame, `None` when more bytes are needed, and an error
/// when no further bytes could make the head of `buf` a frame.
pub fn parse_frame(buf: &[u8]) -> (r: Result<Option<(Message, usize)>, ProtocolError>)
    ensures
        match r {
            Ok(None) => parse(buf@) is Incomplete,
            Ok(Some((msg, used))) => parse(buf@) == Parsed::Frame(msg@, used as nat),
            Err(e) => (e == ProtocolError::InvalidText && parse(buf@) is InvalidText) || (e
                == ProtocolError::UnknownTag && parse(buf@) is UnknownTag),
        },
{
    let len = buf.len();
    if len == 0 {
        return Ok(None);
    }
    let tag = buf[0];
    if tag == 0 {
        Ok(Some((Message::GetPeersRequest, 1)))
    } else if tag == 1 {
        if len < 9 {
            return Ok(None);
        }
        let size: u64 = get_u64_at(buf, 1);
        if ((len - 9) as u64) < size {
            return Ok(None);
        }
        let end: usize = 9 + size as usize;
        match text_from_utf8(slice_subrange(buf, 9, end)) {
            Some(text) => {
                proof {
                    encode_utf8_decode_utf8(text@);
                }
                Ok(Some((Message::Ping(text.to_owned()), end)))
            },
            None => Err(ProtocolError::InvalidText),
        }
    } else if tag == 2 {
        if len < 9 {
            return Ok(None);
        }
        let count: u64 = get_u64_at(buf, 1);
        if (((len - 9) / 6) as u64) < count {
            return Ok(None);
        }
        let n: usize = count as usize;
        let mut addrs: Vec<Addr> = Vec::with_capacity(n);
        let mut i: usize = 0;
        while i < n
            invariant
                i <= n,
                len == buf@.len(),
                9 + 6 * n <= len,
                addrs@ == addrs_at(buf@, 9, i as nat),
            decreases n - i,
        {
            addrs.push(get_addr_at(buf, 9 + 6 * i));
            i += 1;
            assert(addrs@ =~= addrs_at(buf@, 9, i as nat));
        }
        Ok(Some((Message::GetPeersResponse(addrs), 9 + 6 * n)))
    } else if tag == 3 {
        Ok(Some((Message::Connect, 1)))
    } else if tag == 4 {
        if len < 7 {
            return Ok(None);
        }
        Ok(Some((Message::Connected(get_addr_at(buf, 1)), 7)))
    } else {
        Err(ProtocolError::UnknownTag)
    }
}

} // verus!
