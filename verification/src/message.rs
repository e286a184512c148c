//! The messages peers exchange, and the errors that end a session.

use vstd::prelude::*;
use crate::addr::Addr;

verus! {

/// A wire message.
#[derive(Debug, Clone, PartialEq, Eq)]
pub enum Message {
    /// Reserved; never sent by this node.
    Connect,
    /// The handshake greeting: the sender's listen address.
    Connected(Addr),
    /// A poll for the receiver's known peers.
    GetPeersRequest,
    /// An arbitrary text payload.
    Ping(String),
    /// A list of listen addresses.
    GetPeersResponse(Vec<Addr>),
}

/// The mathematical value of a [`Message`].
pub enum MessageView {
    Connect,
    Connected(Addr),
    GetPeersRequest,
    Ping(Seq<char>),
    GetPeersResponse(Seq<Addr>),
}

impl View for Message {
    type V = MessageView;

    open spec fn view(&self) -> MessageView {
        match *self {
            Message::Connect => MessageView::Connect,
            Message::Connected(a) => MessageView::Connected(a),
            Message::GetPeersRequest => MessageView::GetPeersRequest,
            Message::Ping(text) => MessageView::Ping(text@),
            Message::GetPeersResponse(addrs) => MessageView::GetPeersResponse(addrs@),
        }
    }
}

/// Why a session ended.
#[derive(Debug, Clone, Copy, PartialEq, Eq, Structural)]
pub enum ProtocolError {
    /// The stream ended before a complete frame arrived.
    Closed,
    /// A ping payload is not UTF-8.
    InvalidText,
    /// The frame starts with a tag that names no message.
    UnknownTag,
    /// The first message of an inbound stream is not a greeting.
    BadHello,
    /// A handshake message arrived after the handshake.
    BadMessage,
}

/// The messages a session carries once the handshake is done.
#[derive(Debug, Clone, PartialEq, Eq)]
pub enum PeerMessage {
    Ping(String),
    GetPeersRequest,
    GetPeersResponse(Vec<Addr>),
}

impl PeerMessage {
    /// The wire message that carries this one.
    pub open spec fn wire(&self) -> MessageView {
        match *self {
            PeerMessage::Ping(text) => MessageView::Ping(text@),
            PeerMessage::GetPeersRequest => MessageView::GetPeersRequest,
            PeerMessage::GetPeersResponse(addrs) => MessageView::GetPeersResponse(addrs@),
        }
    }

    /// Whether a wire message may travel after the handshake.
    pub open spec fn carried(m: MessageView) -> bool {
        !(m is Connect) && !(m is Connected)
    }

    /// Turns this message into the wire message that carries it.
    pub fn into_wire(self) -> (r: Message)
        ensures
            r@ == self.wire(),
    {
        match self {
            PeerMessage::Ping(text) => Message::Ping(text),
            PeerMessage::GetPeersRequest => Message::GetPeersRequest,
            PeerMessage::GetPeersResponse(addrs) => Message::GetPeersResponse(addrs),
        }
    }

    /// Accepts a wire message received after the handshake: the three
    /// application messages pass, a handshake message is a protocol error.
    pub fn from_wire(msg: Message) -> (r: Result<PeerMessage, ProtocolError>)
        ensures
            Self::carried(msg@) ==> r is Ok && r->Ok_0.wire() == msg@,
            !Self::carried(msg@) ==> r == Err::<PeerMessage, ProtocolError>(
                ProtocolError::BadMessage,
            ),
    {
        match msg {
            Message::GetPeersRequest => Ok(PeerMessage::GetPeersRequest),
            Message::Ping(text) => Ok(PeerMessage::Ping(text)),
            Message::GetPeersResponse(addrs) => Ok(PeerMessage::GetPeersResponse(addrs)),
            Message::Connect => Err(ProtocolError::BadMessage),
            Message::Connected(_) => Err(ProtocolError::BadMessage),
        }
    }
}

} // verus!
