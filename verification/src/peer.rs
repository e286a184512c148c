//! A peer session: a connection that has been through the handshake, and
//! the remote node's listen address.

use vstd::prelude::*;
use crate::addr::Addr;
use crate::connection::Connection;
use crate::message::{Message, MessageView, PeerMessage, ProtocolError};
use crate::wire::{frame, parse, Parsed};

verus! {

/// A session with one remote node.
#[derive(Debug)]
pub struct Peer {
    /// The remote node's listen address: the session's identity.
    pub remote_addr: Addr,
    connection: Connection,
}

/// What one attempt to read an application message owes its caller: as for
/// a connection, but a whole frame that holds a handshake message is taken
/// from the buffer and fails the read.
pub open spec fn peer_delivered(
    input: Seq<u8>,
    ended: bool,
    r: Result<Option<PeerMessage>, ProtocolError>,
    left: Seq<u8>,
) -> bool {
    match parse(input) {
        Parsed::Frame(m, used) => left == input.skip(used as int) && if PeerMessage::carried(m) {
            r is Ok && r->Ok_0 is Some && r->Ok_0->Some_0.wire() == m
        } else {
            r is Err && r->Err_0 == ProtocolError::BadMessage
        },
        Parsed::Incomplete => left == input && if ended {
            r is Err && r->Err_0 == ProtocolError::Closed
        } else {
            r is Ok && r->Ok_0 is None
        },
        Parsed::InvalidText => left == input && r is Err && r->Err_0
            == ProtocolError::InvalidText,
        Parsed::UnknownTag => left == input && r is Err && r->Err_0 == ProtocolError::UnknownTag,
    }
}

/// The listen address a first message announces, if it is a greeting.
pub open spec fn greeted(hello: MessageView) -> Option<Addr> {
    match hello {
        MessageView::Connected(a) => Some(a),
        _ => None,
    }
}

impl Peer {
    /// The bytes received and not yet parsed.
    pub closed spec fn pending(&self) -> Seq<u8> {
        self.connection.pending()
    }

    /// The remote node's listen address, as the field `remote_addr` holds it.
    pub closed spec fn remote(&self) -> Addr {
        self.remote_addr
    }

    /// The remote node's listen address.
    pub fn remote_addr(&self) -> (a: Addr)
        ensures
            a == self.remote(),
    {
        self.remote_addr
    }

    /// The outbound handshake: the session with the node dialed at `addr`,
    /// and the greeting to send it first, which carries this node's own
    /// listen address.
    pub fn connect(addr: Addr, self_addr: Addr) -> (r: (Peer, Vec<u8>))
        ensures
            r.0.remote() == addr,
            r.0.pending() == Seq::<u8>::empty(),
            r.1@ == frame(MessageView::Connected(self_addr)),
    {
        let connection = Connection::new();
        let greeting = connection.write_msg(Message::Connected(self_addr));
        (Peer { remote_addr: addr, connection }, greeting)
    }

    /// The inbound handshake: given the first message read from an accepted
    /// stream, the session with the node that the greeting names. Any other
    /// first message fails the session.
    pub fn connected(connection: Connection, hello: Message) -> (r: Result<Peer, ProtocolError>)
        ensures
            match greeted(hello@) {
                Some(a) => r is Ok && r->Ok_0.remote() == a && r->Ok_0.pending()
                    == connection.pending(),
                None => r is Err && r->Err_0 == ProtocolError::BadHello,
            },
    {
        match hello {
            Message::Connected(remote_addr) => Ok(Peer { remote_addr, connection }),
            _ => Err(ProtocolError::BadHello),
        }
    }

    /// Tries to parse one application message from the bytes already
    /// received.
    pub fn parse_msg(&mut self) -> (r: Result<Option<PeerMessage>, ProtocolError>)
        ensures
            final(self).remote() == old(self).remote(),
            peer_delivered(old(self).pending(), false, r, final(self).pending()),
    {
        match self.connection.parse_msg() {
            Ok(Some(msg)) => match PeerMessage::from_wire(msg) {
                Ok(m) => Ok(Some(m)),
                Err(e) => Err(e),
            },
            Ok(None) => Ok(None),
            Err(e) => Err(e),
        }
    }

    /// Takes what one read of the stream returned, empty when the stream has
    /// ended, and tries to parse an application message.
    pub fn read_msg(&mut self, data: &[u8]) -> (r: Result<Option<PeerMessage>, ProtocolError>)
        ensures
            final(self).remote() == old(self).remote(),
            peer_delivered(
                old(self).pending() + data@,
                data@.len() == 0,
                r,
                final(self).pending(),
            ),
    {
        match self.connection.read_msg(data) {
            Ok(Some(msg)) => match PeerMessage::from_wire(msg) {
                Ok(m) => Ok(Some(m)),
                Err(e) => Err(e),
            },
            Ok(None) => Ok(None),
            Err(e) => Err(e),
        }
    }

    /// The frame to push to the stream, and flush, to send `msg`.
    pub fn write_msg(&self, msg: PeerMessage) -> (out: Vec<u8>)
        ensures
            out@ == frame(msg.wire()),
    {
        self.connection.write_msg(msg.into_wire())
    }
}

/// The handshake: the greeting that an outbound `connect` sends parses, at
/// the accepting end, to a first message that names the dialing node's own
/// listen address, with nothing left over.
pub proof fn lemma_handshake(self_addr: Addr)
    ensures
        parse(frame(MessageView::Connected(self_addr))) == Parsed::Frame(
            MessageView::Connected(self_addr),
            7,
        ),
        greeted(MessageView::Connected(self_addr)) == Some(self_addr),
        frame(MessageView::Connected(self_addr)).skip(7) == Seq::<u8>::empty(),
{
    crate::wire::lemma_whole_frame(MessageView::Connected(self_addr));
}

} // verus!
