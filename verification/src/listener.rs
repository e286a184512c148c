//! The listener: how a node starts, and what it does with each thing that
//! wakes its accept loop.

use vstd::prelude::*;
use crate::addr::Addr;
use crate::message::MessageView;
use crate::peer::Peer;
use crate::runner::{admitted, refused, PeersRunner};
use crate::wire::frame;

verus! {

/// What can wake the accept loop.
#[derive(Debug)]
pub enum ListenerEvent {
    /// The listening socket accepted a stream.
    Accepted,
    /// A handshake, inbound or outbound, produced a session.
    Ready(Peer),
    /// The interval for asking peers ticked.
    AskPeersTick,
}

/// What the accept loop does in answer to an event.
#[derive(Debug)]
pub enum ListenerAction {
    /// Run the inbound handshake on the accepted stream in a task of its own,
    /// and submit the session if it succeeds.
    Handshake,
    /// Start a driver that owns the session.
    Drive(Peer),
    /// Close the session: a driver already serves the peer at this address,
    /// or the address is this node's own.
    Duplicate(Addr),
    /// Wake one driver, which then asks its peer for peers.
    AskPeers,
}

/// Starts a node on `bind_addr`: a runner with no peers and, where a
/// bootstrap peer is given, the outbound session to it and the greeting to
/// send it once the dial has succeeded.
pub fn start(bind_addr: Addr, initial_peer: Option<Addr>) -> (r: (
    PeersRunner,
    Option<(Peer, Vec<u8>)>,
))
    ensures
        r.0.wf(),
        r.0.peers() == Seq::<Addr>::empty(),
        r.0.own_addr() == bind_addr,
        match initial_peer {
            Some(a) => r.1 is Some && r.1->Some_0.0.remote() == a && r.1->Some_0.0.pending()
                == Seq::<u8>::empty() && r.1->Some_0.1@ == frame(
                MessageView::Connected(bind_addr),
            ),
            None => r.1 is None,
        },
{
    let runner = PeersRunner::new(bind_addr);
    match initial_peer {
        Some(initial) => (runner, Some(Peer::connect(initial, bind_addr))),
        None => (runner, None),
    }
}

/// One turn of the accept loop: an accepted stream goes to a handshake, a
/// ready session is registered and driven unless its peer is registered
/// already or is this node itself, and a tick of the interval wakes one
/// driver.
pub fn listener_step(runner: &mut PeersRunner, event: ListenerEvent) -> (r: ListenerAction)
    ensures
        final(runner).wf(),
        final(runner).own_addr() == old(runner).own_addr(),
        match event {
            ListenerEvent::Accepted => r is Handshake && final(runner).peers() == old(
                runner,
            ).peers(),
            ListenerEvent::Ready(peer) => final(runner).peers() == admitted(
                old(runner).peers(),
                old(runner).own_addr(),
                peer.remote(),
            ) && r == if refused(old(runner).peers(), old(runner).own_addr(), peer.remote()) {
                ListenerAction::Duplicate(peer.remote())
            } else {
                ListenerAction::Drive(peer)
            },
            ListenerEvent::AskPeersTick => r is AskPeers && final(runner).peers() == old(
                runner,
            ).peers(),
        },
{
    proof {
        use_type_invariant(&*runner);
    }
    match event {
        ListenerEvent::Accepted => ListenerAction::Handshake,
        ListenerEvent::Ready(peer) => {
            let addr = peer.remote_addr();
            match runner.run_peer(peer) {
                Some(admitted_peer) => ListenerAction::Drive(admitted_peer),
                None => ListenerAction::Duplicate(addr),
            }
        },
        ListenerEvent::AskPeersTick => ListenerAction::AskPeers,
    }
}

} // verus!
