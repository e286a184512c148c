//! The registry of live peers and the decisions of a peer's driver.

use vstd::prelude::*;
use vstd::string::StringExecFns;
use crate::addr::Addr;
use crate::message::{MessageView, PeerMessage};
use crate::peer::Peer;

verus! {

/// A ping received from a peer, as handed to the pings sink.
#[derive(Debug, PartialEq, Eq)]
pub struct Ping {
    /// The text the peer sent.
    pub ping: String,
    /// The listen address of the peer that sent it.
    pub addr: Addr,
}

/// What can wake a peer's driver.
#[derive(Debug)]
pub enum PeerEvent {
    /// The session delivered a message.
    Received(PeerMessage),
    /// The process-wide signal to ask for peers reached this driver.
    AskPeers,
    /// The driver's own ping period ticked.
    PingTick,
}

/// What a driver does in answer to an event.
#[derive(Debug, PartialEq, Eq)]
pub enum PeerAction {
    /// Hand the ping to the pings sink.
    Forward(Ping),
    /// Send the message over the session.
    Send(PeerMessage),
    /// Dial each address, each in a task of its own, and submit the sessions
    /// that result.
    Dial(Vec<Addr>),
}

/// The text of the pings this node sends.
pub open spec fn ping_text() -> Seq<char> {
    "Random message"@
}

/// Whether a session with the peer at `a` is dropped on submission: a
/// driver already serves that peer, or the address is this node's own.
pub open spec fn refused(known: Seq<Addr>, own: Addr, a: Addr) -> bool {
    a == own || known.contains(a)
}

/// The registry after a session with the peer at `a` was submitted.
pub open spec fn admitted(known: Seq<Addr>, own: Addr, a: Addr) -> Seq<Addr> {
    if refused(known, own, a) {
        known
    } else {
        known.push(a)
    }
}

/// The registry after the driver of `a` has exited.
pub open spec fn released(known: Seq<Addr>, a: Addr) -> Seq<Addr> {
    if known.contains(a) {
        known.remove(known.index_of(a))
    } else {
        known
    }
}

/// Whether a gossiped address is worth a dial: it is neither this node nor a
/// peer already driven.
pub open spec fn is_unknown(a: Addr, own: Addr, known: Seq<Addr>) -> bool {
    a != own && !known.contains(a)
}

/// The addresses of a gossiped list that are worth a dial, in the list's
/// order, repeats kept.
pub open spec fn unknown(addrs: Seq<Addr>, own: Addr, known: Seq<Addr>) -> Seq<Addr> {
    addrs.filter(|a: Addr| is_unknown(a, own, known))
}

/// The set of remote listen addresses that a driver currently serves,
/// together with this node's own address.
#[derive(Debug)]
pub struct PeersRunner {
    remote_peers: Vec<Addr>,
    self_addr: Addr,
}

impl PeersRunner {
    /// The registered addresses, oldest first.
    pub closed spec fn peers(&self) -> Seq<Addr> {
        self.remote_peers@
    }

    /// This node's own listen address.
    pub closed spec fn own_addr(&self) -> Addr {
        self.self_addr
    }

    /// What holds of every runner at every point of its life: no address is
    /// registered twice, and this node's own address is not registered.
    #[verifier::type_invariant]
    pub open spec fn wf(&self) -> bool {
        self.peers().no_duplicates() && !self.peers().contains(self.own_addr())
    }

    /// A runner for the node listening on `bind_addr`, with no peers yet.
    pub fn new(bind_addr: Addr) -> (r: PeersRunner)
        ensures
            r.wf(),
            r.peers() == Seq::<Addr>::empty(),
            r.own_addr() == bind_addr,
    {
        PeersRunner { remote_peers: Vec::new(), self_addr: bind_addr }
    }

    /// Where `addr` stands in the registry.
    fn position(&self, addr: Addr) -> (r: Option<usize>)
        ensures
            match r {
                Some(i) => i < self.peers().len() && self.peers()[i as int] == addr,
                None => !self.peers().contains(addr),
            },
    {
        let mut i: usize = 0;
        while i < self.remote_peers.len()
            invariant
                i <= self.remote_peers@.len(),
                forall|k: int| 0 <= k < i ==> self.remote_peers@[k] != addr,
            decreases self.remote_peers@.len() - i,
        {
            if self.remote_peers[i] == addr {
                return Some(i);
            }
            i += 1;
        }
        None
    }

    /// A copy of the registered addresses, as a flat list.
    pub fn snapshot(&self) -> (r: Vec<Addr>)
        ensures
            r@ == self.peers(),
    {
        let mut out: Vec<Addr> = Vec::new();
        let mut i: usize = 0;
        while i < self.remote_peers.len()
            invariant
                i <= self.remote_peers@.len(),
                out@ == self.remote_peers@.subrange(0, i as int),
            decreases self.remote_peers@.len() - i,
        {
            out.push(self.remote_peers[i]);
            i += 1;
            assert(out@ =~= self.remote_peers@.subrange(0, i as int));
        }
        assert(self.remote_peers@.subrange(0, i as int) =~= self.remote_peers@);
        out
    }

    /// Submits a session. A session with a peer that is not registered is
    /// registered and handed back for a driver to own. One with a registered
    /// peer, or with a peer that gave this node's own address, is dropped,
    /// and the registry stays as it is.
    pub fn run_peer(&mut self, peer: Peer) -> (r: Option<Peer>)
        ensures
            final(self).wf(),
            final(self).own_addr() == old(self).own_addr(),
            final(self).peers() == admitted(
                old(self).peers(),
                old(self).own_addr(),
                peer.remote(),
            ),
            peer.remote() != old(self).own_addr() ==> final(self).peers().contains(peer.remote()),
            r == if refused(old(self).peers(), old(self).own_addr(), peer.remote()) {
                None
            } else {
                Some(peer)
            },
    {
        let addr = peer.remote_addr();
        proof {
            use_type_invariant(&*self);
            lemma_admitted(self.peers(), self.own_addr(), addr);
        }
        if addr == self.self_addr {
            return None;
        }
        match self.position(addr) {
            Some(_) => None,
            None => {
                let mut peers: Vec<Addr> = Vec::new();
                std::mem::swap(&mut peers, &mut self.remote_peers);
                peers.push(addr);
                self.remote_peers = peers;
                Some(peer)
            },
        }
    }

    /// Removes the peer at `addr` from the registry: what the exit of its
    /// driver owes, however the driver ended.
    pub fn disconnected(&mut self, addr: Addr)
        ensures
            final(self).wf(),
            final(self).own_addr() == old(self).own_addr(),
            final(self).peers() == released(old(self).peers(), addr),
            !final(self).peers().contains(addr),
    {
        proof {
            use_type_invariant(&*self);
            lemma_released(self.peers(), addr);
        }
        match self.position(addr) {
            Some(i) => {
                assert(self.peers().index_of(addr) == i);
                let mut peers: Vec<Addr> = Vec::new();
                std::mem::swap(&mut peers, &mut self.remote_peers);
                peers.remove(i);
                self.remote_peers = peers;
            },
            None => {},
        }
    }

    /// The addresses of a gossiped list to dial.
    fn select_unknown(&self, addrs: &Vec<Addr>) -> (out: Vec<Addr>)
        ensures
            out@ == unknown(addrs@, self.own_addr(), self.peers()),
    {
        let ghost keep = |a: Addr| is_unknown(a, self.own_addr(), self.peers());
        let mut out: Vec<Addr> = Vec::new();
        let mut i: usize = 0;
        proof {
            reveal_with_fuel(Seq::filter, 1);
        }
        while i < addrs.len()
            invariant
                i <= addrs@.len(),
                keep == |a: Addr| is_unknown(a, self.own_addr(), self.peers()),
                out@ == addrs@.subrange(0, i as int).filter(keep),
            decreases addrs@.len() - i,
        {
            let a = addrs[i];
            let registered = self.position(a).is_some();
            proof {
                let next = addrs@.subrange(0, i + 1);
                assert(next.drop_last() =~= addrs@.subrange(0, i as int));
                assert(next.last() == a);
                reveal_with_fuel(Seq::filter, 1);
            }
            if a != self.self_addr && !registered {
                out.push(a);
            }
            i += 1;
        }
        assert(addrs@.subrange(0, i as int) =~= addrs@);
        out
    }

    /// Decides what a driver does with a message from its peer: a ping goes
    /// to the sink with the peer's address, a request for peers is answered
    /// with the registry as it stands, and a list of peers leads to a dial of
    /// each address on it that is neither this node nor registered.
    pub fn handle_peer_message(&self, peer: &Peer, message: PeerMessage) -> (r: PeerAction)
        ensures
            match message {
                PeerMessage::Ping(text) => r == PeerAction::Forward(
                    Ping { ping: text, addr: peer.remote() },
                ),
                PeerMessage::GetPeersRequest => r is Send && r->Send_0.wire()
                    == MessageView::GetPeersResponse(self.peers()),
                PeerMessage::GetPeersResponse(addrs) => r is Dial && r->Dial_0@ == unknown(
                    addrs@,
                    self.own_addr(),
                    self.peers(),
                ),
            },
    {
        match message {
            PeerMessage::Ping(ping) => PeerAction::Forward(Ping { ping, addr: peer.remote_addr() }),
            PeerMessage::GetPeersRequest => PeerAction::Send(
                PeerMessage::GetPeersResponse(self.snapshot()),
            ),
            PeerMessage::GetPeersResponse(addrs) => PeerAction::Dial(self.select_unknown(&addrs)),
        }
    }

    /// Decides what a driver does when one of its three event sources fires:
    /// a message is handled as `handle_peer_message` says, the signal to ask
    /// for peers sends a request for them, and a ping tick sends a ping.
    pub fn peer_task_step(&self, peer: &Peer, event: PeerEvent) -> (r: PeerAction)
        ensures
            match event {
                PeerEvent::Received(PeerMessage::Ping(text)) => r == PeerAction::Forward(
                    Ping { ping: text, addr: peer.remote() },
                ),
                PeerEvent::Received(PeerMessage::GetPeersRequest) => r is Send && r->Send_0.wire()
                    == MessageView::GetPeersResponse(self.peers()),
                PeerEvent::Received(PeerMessage::GetPeersResponse(addrs)) => r is Dial
                    && r->Dial_0@ == unknown(addrs@, self.own_addr(), self.peers()),
                PeerEvent::AskPeers => r is Send && r->Send_0.wire()
                    == MessageView::GetPeersRequest,
                PeerEvent::PingTick => r is Send && r->Send_0.wire() == MessageView::Ping(
                    ping_text(),
                ),
            },
    {
        match event {
            PeerEvent::Received(message) => self.handle_peer_message(peer, message),
            PeerEvent::AskPeers => PeerAction::Send(PeerMessage::GetPeersRequest),
            PeerEvent::PingTick => PeerAction::Send(
                PeerMessage::Ping(String::from_str("Random message")),
            ),
        }
    }
}

/// Deduplication: submitting sessions with one address registers it at most
/// once. The registry grows by exactly one when the session is admitted and
/// not at all when it is refused; once an address was submitted, every
/// further session with it is refused and changes nothing; and this node's
/// own address never enters the registry.
pub proof fn lemma_admitted(known: Seq<Addr>, own: Addr, a: Addr)
    requires
        known.no_duplicates(),
        !known.contains(own),
    ensures
        admitted(known, own, a).no_duplicates(),
        !admitted(known, own, a).contains(own),
        a != own ==> admitted(known, own, a).contains(a),
        admitted(known, own, a).len() == known.len() + if refused(known, own, a) {
            0int
        } else {
            1int
        },
        refused(admitted(known, own, a), own, a),
        admitted(admitted(known, own, a), own, a) == admitted(known, own, a),
        forall|b: Addr|
            b != a ==> (admitted(known, own, a).contains(b) <==> known.contains(b)),
{
    let next = admitted(known, own, a);
    if !refused(known, own, a) {
        assert(next[known.len() as int] == a);
        assert forall|b: Addr| b != a && next.contains(b) implies known.contains(b) by {
            let k = choose|k: int| 0 <= k < next.len() && next[k] == b;
            assert(known[k] == b);
        }
        assert forall|b: Addr| known.contains(b) implies next.contains(b) by {
            let k = choose|k: int| 0 <= k < known.len() && known[k] == b;
            assert(next[k] == b);
        }
    }
}

/// Cleanup: once its driver has exited an address is absent from the
/// registry, and every other address stays as it was.
pub proof fn lemma_released(known: Seq<Addr>, a: Addr)
    requires
        known.no_duplicates(),
    ensures
        released(known, a).no_duplicates(),
        released(known, a).len() == known.len() - if known.contains(a) {
            1int
        } else {
            0int
        },
        !released(known, a).contains(a),
        forall|b: Addr| b != a ==> (released(known, a).contains(b) <==> known.contains(b)),
{
    let next = released(known, a);
    if known.contains(a) {
        let i = known.index_of(a);
        assert(0 <= i < known.len() && known[i] == a);
        assert forall|k: int| 0 <= k < next.len() implies next[k] != a by {
            if k < i {
                assert(next[k] == known[k]);
            } else {
                assert(next[k] == known[k + 1]);
            }
        }
        assert forall|b: Addr| b != a && known.contains(b) implies next.contains(b) by {
            let k = choose|k: int| 0 <= k < known.len() && known[k] == b;
            if k < i {
                assert(next[k] == b);
            } else {
                assert(next[k - 1] == b);
            }
        }
        assert forall|b: Addr| next.contains(b) implies known.contains(b) by {
            let k = choose|k: int| 0 <= k < next.len() && next[k] == b;
            if k < i {
                assert(known[k] == b);
            } else {
                assert(known[k + 1] == b);
            }
        }
    }
}

/// Whatever a filter keeps was in the sequence it filtered.
proof fn lemma_filter_source(s: Seq<Addr>, keep: spec_fn(Addr) -> bool, a: Addr)
    requires
        s.filter(keep).contains(a),
    ensures
        s.contains(a),
    decreases s.len(),
{
    reveal_with_fuel(Seq::filter, 1);
    if s.len() > 0 {
        let front = s.drop_last();
        if keep(s.last()) && a == s.last() {
            assert(s[s.len() - 1] == a);
        } else {
            if keep(s.last()) {
                let k = choose|k: int| 0 <= k < s.filter(keep).len() && s.filter(keep)[k] == a;
                assert(front.filter(keep)[k] == a);
            }
            lemma_filter_source(front, keep, a);
            let j = choose|j: int| 0 <= j < front.len() && front[j] == a;
            assert(s[j] == a);
        }
    }
}

/// Gossip never leads this node to dial itself or a registered peer.
pub proof fn lemma_unknown(addrs: Seq<Addr>, own: Addr, known: Seq<Addr>)
    ensures
        !unknown(addrs, own, known).contains(own),
        forall|a: Addr| #[trigger]
            unknown(addrs, own, known).contains(a) ==> addrs.contains(a) && !known.contains(a),
        forall|a: Addr|
            addrs.contains(a) && is_unknown(a, own, known) ==> #[trigger] unknown(
                addrs,
                own,
                known,
            ).contains(a),
{
    let keep = |a: Addr| is_unknown(a, own, known);
    let out = addrs.filter(keep);
    broadcast use vstd::seq_lib::group_filter_ensures;

    assert forall|a: Addr| out.contains(a) implies addrs.contains(a) && is_unknown(
        a,
        own,
        known,
    ) by {
        let k = choose|k: int| 0 <= k < out.len() && out[k] == a;
        assert(keep(out[k]));
        lemma_filter_source(addrs, keep, a);
    }
    assert forall|a: Addr| addrs.contains(a) && is_unknown(a, own, known) implies out.contains(
        a,
    ) by {
        let k = choose|k: int| 0 <= k < addrs.len() && addrs[k] == a;
        assert(keep(addrs[k]));
    }
}

} // verus!
