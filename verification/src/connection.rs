//! One end of a stream: the bytes received and not yet parsed, and the
//! framing of what is sent.

use vstd::prelude::*;
use bytes::BytesMut;
use crate::buffer::{buffer_advance, buffer_bytes, buffer_extend, buffer_new, buffered};
use crate::codec::{encode_frame, parse_frame};
use crate::message::{Message, MessageView, ProtocolError};
use crate::wire::{
    fits, frame, lemma_prefix_incomplete, lemma_whole_frame, parse, Parsed,
};

verus! {

/// The framing state of one stream. Whoever owns the stream hands the bytes
/// it reads to the connection and writes out the frames the connection
/// returns.
#[derive(Debug)]
pub struct Connection {
    buf: BytesMut,
}

/// What one attempt to read a message owes its caller, given the bytes
/// `input` at hand and whether the stream has ended: a whole frame at the
/// head of `input` is decoded and dropped from the buffer; anything else
/// leaves the buffer as it is, and is an error unless more bytes may come.
pub open spec fn delivered(
    input: Seq<u8>,
    ended: bool,
    r: Result<Option<Message>, ProtocolError>,
    left: Seq<u8>,
) -> bool {
    match parse(input) {
        Parsed::Frame(m, used) => r is Ok && r->Ok_0 is Some && r->Ok_0->Some_0@ == m && left
            == input.skip(used as int),
        Parsed::Incomplete => left == input && if ended {
            r is Err && r->Err_0 == ProtocolError::Closed
        } else {
            r is Ok && r->Ok_0 is None
        },
        Parsed::InvalidText => left == input && r is Err && r->Err_0
            == ProtocolError::InvalidText,
        Parsed::UnknownTag => left == input && r is Err && r->Err_0 == ProtocolError::UnknownTag,
    }
}

impl Connection {
    /// The bytes received and not yet parsed.
    pub closed spec fn pending(&self) -> Seq<u8> {
        buffered(self.buf)
    }

    /// A connection that has received nothing.
    pub fn new() -> (c: Connection)
        ensures
            c.pending() == Seq::<u8>::empty(),
    {
        Connection { buf: buffer_new() }
    }

    /// How many bytes are received and not yet parsed.
    pub fn pending_len(&self) -> (n: usize)
        ensures
            n == self.pending().len(),
    {
        buffer_bytes(&self.buf).len()
    }

    /// Tries to parse one message from the head of the buffer. Bytes leave the
    /// buffer only when a whole message was decoded; `None` asks for more
    /// bytes.
    pub fn parse_msg(&mut self) -> (r: Result<Option<Message>, ProtocolError>)
        ensures
            delivered(old(self).pending(), false, r, final(self).pending()),
    {
        match parse_frame(buffer_bytes(&self.buf)) {
            Ok(Some((msg, used))) => {
                buffer_advance(&mut self.buf, used);
                Ok(Some(msg))
            },
            Ok(None) => Ok(None),
            Err(e) => Err(e),
        }
    }

    /// Takes what one read of the stream returned, empty when the stream has
    /// ended, and tries to parse a message. A stream that ends without a whole
    /// frame in the buffer is closed; a whole frame already there is still
    /// delivered.
    pub fn read_msg(&mut self, data: &[u8]) -> (r: Result<Option<Message>, ProtocolError>)
        ensures
            delivered(
                old(self).pending() + data@,
                data@.len() == 0,
                r,
                final(self).pending(),
            ),
    {
        buffer_extend(&mut self.buf, data);
        match self.parse_msg() {
            Ok(None) => {
                if data.len() == 0 {
                    Err(ProtocolError::Closed)
                } else {
                    Ok(None)
                }
            },
            r => r,
        }
    }

    /// The frame to push to the stream, and flush, to send `msg`.
    pub fn write_msg(&self, msg: Message) -> (out: Vec<u8>)
        ensures
            out@ == frame(msg@),
    {
        encode_frame(&msg)
    }
}

/// Round trip: a reader that holds exactly the frame written for a message
/// delivers a message equal to it and is left with an empty buffer, whether
/// or not the stream has ended.
pub proof fn lemma_read_back(
    msg: MessageView,
    ended: bool,
    r: Result<Option<Message>, ProtocolError>,
    left: Seq<u8>,
)
    requires
        fits(msg),
        delivered(frame(msg), ended, r, left),
    ensures
        r is Ok,
        r->Ok_0 is Some,
        r->Ok_0->Some_0@ == msg,
        left == Seq::<u8>::empty(),
{
    lemma_whole_frame(msg);
}

/// Incremental parsing: a reader that holds only the first `k` bytes of a
/// frame, with more to come, delivers nothing and keeps those bytes.
pub proof fn lemma_read_partial(
    msg: MessageView,
    k: int,
    r: Result<Option<Message>, ProtocolError>,
    left: Seq<u8>,
)
    requires
        fits(msg),
        0 <= k < frame(msg).len(),
        delivered(frame(msg).subrange(0, k), false, r, left),
    ensures
        r is Ok,
        r->Ok_0 is None,
        left == frame(msg).subrange(0, k),
{
    lemma_prefix_incomplete(msg, k);
}

} // verus!
