//! The wire format as mathematics: what a frame's bytes are, and what the
//! head of a byte sequence parses to.

use vstd::prelude::*;
use vstd::arithmetic::div_mod::lemma_div_denominator;
use vstd::utf8::*;
use crate::addr::Addr;
use crate::message::MessageView;

verus! {

/// The two bytes of `v`, most significant first.
pub open spec fn u16_be(v: u16) -> Seq<u8> {
    seq![(v / 256) as u8, (v % 256) as u8]
}

/// The eight bytes of `v`, most significant first.
pub open spec fn u64_be(v: u64) -> Seq<u8> {
    seq![
        (v / 0x100_0000_0000_0000) as u8,
        ((v / 0x1_0000_0000_0000) % 256) as u8,
        ((v / 0x100_0000_0000) % 256) as u8,
        ((v / 0x1_0000_0000) % 256) as u8,
        ((v / 0x100_0000) % 256) as u8,
        ((v / 0x1_0000) % 256) as u8,
        ((v / 0x100) % 256) as u8,
        (v % 256) as u8,
    ]
}

/// The number that the two bytes of `s` from `at` on spell, most significant
/// first.
pub open spec fn be_u16_at(s: Seq<u8>, at: int) -> int {
    s[at] * 256 + s[at + 1]
}

/// The number that the eight bytes of `s` from `at` on spell, most
/// significant first.
pub open spec fn be_u64_at(s: Seq<u8>, at: int) -> int {
    s[at] * 0x100_0000_0000_0000 + s[at + 1] * 0x1_0000_0000_0000 + s[at + 2] * 0x100_0000_0000
        + s[at + 3] * 0x1_0000_0000 + s[at + 4] * 0x100_0000 + s[at + 5] * 0x1_0000 + s[at + 6]
        * 0x100 + s[at + 7]
}

/// The six bytes of an address: four octets, then the port.
pub open spec fn addr_bytes(a: Addr) -> Seq<u8> {
    seq![a.a, a.b, a.c, a.d, (a.port / 256) as u8, (a.port % 256) as u8]
}

/// The bytes of a list of addresses, six for each, in order.
pub open spec fn addrs_bytes(addrs: Seq<Addr>) -> Seq<u8> {
    Seq::new(6 * addrs.len(), |j: int| addr_bytes(addrs[j / 6])[j % 6])
}

/// The address that the six bytes of `s` from `at` on spell.
pub open spec fn addr_at(s: Seq<u8>, at: int) -> Addr {
    Addr { a: s[at], b: s[at + 1], c: s[at + 2], d: s[at + 3], port: be_u16_at(s, at + 4) as u16 }
}

/// The `count` addresses that lie back to back in `s` from `at` on.
pub open spec fn addrs_at(s: Seq<u8>, at: int, count: nat) -> Seq<Addr> {
    Seq::new(count, |i: int| addr_at(s, at + 6 * i))
}

/// The frame of a message: its tag byte, then its payload.
pub open spec fn frame(m: MessageView) -> Seq<u8> {
    match m {
        MessageView::GetPeersRequest => seq![0u8],
        MessageView::Ping(text) => seq![1u8] + u64_be(encode_utf8(text).len() as u64)
            + encode_utf8(text),
        MessageView::GetPeersResponse(addrs) => seq![2u8] + u64_be(addrs.len() as u64)
            + addrs_bytes(addrs),
        MessageView::Connect => seq![3u8],
        MessageView::Connected(a) => seq![4u8] + addr_bytes(a),
    }
}

/// Whether the lengths inside a message fit the frame's 64-bit counters.
pub open spec fn fits(m: MessageView) -> bool {
    match m {
        MessageView::Ping(text) => encode_utf8(text).len() <= u64::MAX,
        MessageView::GetPeersResponse(addrs) => addrs.len() <= u64::MAX,
        _ => true,
    }
}

/// What the head of a byte sequence holds.
pub enum Parsed {
    /// Not yet a whole frame: more bytes are needed.
    Incomplete,
    /// A whole frame: its message and its length in bytes.
    Frame(MessageView, nat),
    /// A whole ping frame whose payload is not UTF-8.
    InvalidText,
    /// The first byte names no message.
    UnknownTag,
}

/// Parses one frame from the head of `s`.
pub open spec fn parse(s: Seq<u8>) -> Parsed {
    if s.len() == 0 {
        Parsed::Incomplete
    } else if s[0] == 0 {
        Parsed::Frame(MessageView::GetPeersRequest, 1)
    } else if s[0] == 1 {
        if s.len() < 9 || s.len() - 9 < be_u64_at(s, 1) {
            Parsed::Incomplete
        } else {
            let end = 9 + be_u64_at(s, 1);
            let text = s.subrange(9, end);
            if valid_utf8(text) {
                Parsed::Frame(MessageView::Ping(decode_utf8(text)), end as nat)
            } else {
                Parsed::InvalidText
            }
        }
    } else if s[0] == 2 {
        if s.len() < 9 || s.len() - 9 < 6 * be_u64_at(s, 1) {
            Parsed::Incomplete
        } else {
            let count = be_u64_at(s, 1) as nat;
            Parsed::Frame(MessageView::GetPeersResponse(addrs_at(s, 9, count)), 9 + 6 * count)
        }
    } else if s[0] == 3 {
        Parsed::Frame(MessageView::Connect, 1)
    } else if s[0] == 4 {
        if s.len() < 7 {
            Parsed::Incomplete
        } else {
            Parsed::Frame(MessageView::Connected(addr_at(s, 1)), 7)
        }
    } else {
        Parsed::UnknownTag
    }
}

/// Eight bytes written by `u64_be` spell the number they were written from.
pub proof fn lemma_u64_be_at(s: Seq<u8>, at: int, v: u64)
    requires
        0 <= at,
        at + 8 <= s.len(),
        s.subrange(at, at + 8) == u64_be(v),
    ensures
        be_u64_at(s, at) == v,
{
    let w = s.subrange(at, at + 8);
    assert(s[at] == w[0] && s[at + 1] == w[1] && s[at + 2] == w[2] && s[at + 3] == w[3]);
    assert(s[at + 4] == w[4] && s[at + 5] == w[5] && s[at + 6] == w[6] && s[at + 7] == w[7]);
    lemma_u64_digits(v);
}

/// A 64-bit number is the sum of its eight base-256 digits, each times its
/// place value.
proof fn lemma_u64_digits(v: u64)
    ensures
        v == (v / 0x100_0000_0000_0000) * 0x100_0000_0000_0000 + ((v / 0x1_0000_0000_0000) % 256)
            * 0x1_0000_0000_0000 + ((v / 0x100_0000_0000) % 256) * 0x100_0000_0000 + ((v
            / 0x1_0000_0000) % 256) * 0x1_0000_0000 + ((v / 0x100_0000) % 256) * 0x100_0000 + ((v
            / 0x1_0000) % 256) * 0x1_0000 + ((v / 0x100) % 256) * 0x100 + v % 256,
{
    let x = v as int;
    let q1 = x / 256;
    let q2 = q1 / 256;
    let q3 = q2 / 256;
    let q4 = q3 / 256;
    let q5 = q4 / 256;
    let q6 = q5 / 256;
    let q7 = q6 / 256;
    lemma_div_denominator(x, 0x100, 256);
    lemma_div_denominator(x, 0x1_0000, 256);
    lemma_div_denominator(x, 0x100_0000, 256);
    lemma_div_denominator(x, 0x1_0000_0000, 256);
    lemma_div_denominator(x, 0x100_0000_0000, 256);
    lemma_div_denominator(x, 0x1_0000_0000_0000, 256);
    assert(q2 == x / 0x1_0000);
    assert(q3 == x / 0x100_0000);
    assert(q4 == x / 0x1_0000_0000);
    assert(q5 == x / 0x100_0000_0000);
    assert(q6 == x / 0x1_0000_0000_0000);
    assert(q7 == x / 0x100_0000_0000_0000);
    assert(x == 256 * q1 + x % 256);
    assert(q1 == 256 * q2 + q1 % 256);
    assert(q2 == 256 * q3 + q2 % 256);
    assert(q3 == 256 * q4 + q3 % 256);
    assert(q4 == 256 * q5 + q4 % 256);
    assert(q5 == 256 * q6 + q5 % 256);
    assert(q6 == 256 * q7 + q6 % 256);
}

/// The six bytes of an address, wherever they lie, spell that address.
pub proof fn lemma_addr_at(s: Seq<u8>, at: int, a: Addr)
    requires
        0 <= at,
        at + 6 <= s.len(),
        s.subrange(at, at + 6) == addr_bytes(a),
    ensures
        addr_at(s, at) == a,
{
    let w = s.subrange(at, at + 6);
    assert(s[at] == w[0] && s[at + 1] == w[1] && s[at + 2] == w[2] && s[at + 3] == w[3]);
    assert(s[at + 4] == w[4] && s[at + 5] == w[5]);
}

/// Round trip: whatever follows it in the stream, the frame of a message
/// parses to that message and to the frame's own length.
pub proof fn lemma_round_trip(m: MessageView, rest: Seq<u8>)
    requires
        fits(m),
    ensures
        parse(frame(m) + rest) == Parsed::Frame(m, frame(m).len()),
{
    broadcast use {encode_utf8_valid_utf8, encode_utf8_decode_utf8};

    let s = frame(m) + rest;
    match m {
        MessageView::Ping(text) => {
            let payload = encode_utf8(text);
            let n = payload.len() as u64;
            assert(s.subrange(1, 9) =~= u64_be(n));
            lemma_u64_be_at(s, 1, n);
            assert(s.subrange(9, 9 + n) =~= payload);
        },
        MessageView::GetPeersResponse(addrs) => {
            let c = addrs.len() as u64;
            assert(s.subrange(1, 9) =~= u64_be(c));
            lemma_u64_be_at(s, 1, c);
            assert forall|i: int| 0 <= i < addrs.len() implies addr_at(s, 9 + 6 * i)
                == addrs[i] by {
                assert(s.subrange(9 + 6 * i, 9 + 6 * i + 6) =~= addr_bytes(addrs[i]));
                lemma_addr_at(s, 9 + 6 * i, addrs[i]);
            }
            assert(addrs_at(s, 9, c as nat) =~= addrs);
        },
        MessageView::Connected(a) => {
            assert(s.subrange(1, 7) =~= addr_bytes(a));
            lemma_addr_at(s, 1, a);
        },
        _ => {},
    }
}

/// Incremental parsing: no proper prefix of a frame is a frame, so a parser
/// fed a frame byte by byte asks for more until the last byte has arrived.
pub proof fn lemma_prefix_incomplete(m: MessageView, k: int)
    requires
        fits(m),
        0 <= k < frame(m).len(),
    ensures
        parse(frame(m).subrange(0, k)) is Incomplete,
{
    let p = frame(m).subrange(0, k);
    if k >= 9 {
        match m {
            MessageView::Ping(text) => {
                let n = encode_utf8(text).len() as u64;
                assert(p.subrange(1, 9) =~= u64_be(n));
                lemma_u64_be_at(p, 1, n);
            },
            MessageView::GetPeersResponse(addrs) => {
                let c = addrs.len() as u64;
                assert(p.subrange(1, 9) =~= u64_be(c));
                lemma_u64_be_at(p, 1, c);
            },
            _ => {},
        }
    }
}

/// Incremental parsing, whole: once the last byte of a frame has arrived the
/// parser yields its message, and dropping the bytes it names leaves nothing.
pub proof fn lemma_whole_frame(m: MessageView)
    requires
        fits(m),
    ensures
        parse(frame(m)) == Parsed::Frame(m, frame(m).len()),
        frame(m).skip(frame(m).len() as int) == Seq::<u8>::empty(),
{
    lemma_round_trip(m, Seq::empty());
    assert(frame(m) + Seq::<u8>::empty() =~= frame(m));
    assert(frame(m).skip(frame(m).len() as int) =~= Seq::<u8>::empty());
}

} // verus!
