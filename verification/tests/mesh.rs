use p2p_gossip::addr::Addr;
use p2p_gossip::connection::Connection;
use p2p_gossip::listener::{listener_step, start, ListenerAction, ListenerEvent};
use p2p_gossip::peer::Peer;
use p2p_gossip::runner::{PeerAction, PeerEvent, PeersRunner, Ping};

/// One end of an in-memory stream between two nodes.
struct End {
    node: usize,
    peer: Peer,
    inbox: Vec<u8>,
    other: usize,
}

/// A mesh of nodes whose streams are byte queues in memory.
struct Mesh {
    addrs: Vec<Addr>,
    runners: Vec<PeersRunner>,
    ends: Vec<End>,
    sink: Vec<(usize, Ping)>,
}

impl Mesh {
    fn new() -> Mesh {
        Mesh { addrs: vec![], runners: vec![], ends: vec![], sink: vec![] }
    }

    fn spawn(&mut self, bind: Addr, bootstrap: Option<Addr>) {
        let (runner, first) = start(bind, bootstrap);
        let node = self.addrs.len();
        self.addrs.push(bind);
        self.runners.push(runner);
        if let Some((peer, greeting)) = first {
            self.connect(node, peer, greeting);
        }
    }

    fn submit(&mut self, node: usize, peer: Peer) -> Option<Peer> {
        match listener_step(&mut self.runners[node], ListenerEvent::Ready(peer)) {
            ListenerAction::Drive(peer) => Some(peer),
            ListenerAction::Duplicate(_) => None,
            other => panic!("a ready session was answered with {:?}", other),
        }
    }

    fn connect(&mut self, from: usize, peer: Peer, greeting: Vec<u8>) {
        let to = match self.addrs.iter().position(|a| *a == peer.remote_addr) {
            Some(to) => to,
            None => return,
        };
        let mut accepted = Connection::new();
        let mut hello = None;
        for byte in greeting {
            assert!(hello.is_none());
            hello = accepted.read_msg(&[byte]).unwrap();
        }
        let inbound = Peer::connected(accepted, hello.unwrap()).unwrap();
        assert_eq!(inbound.remote_addr, self.addrs[from]);
        let (out_addr, in_addr) = (peer.remote_addr, inbound.remote_addr);
        match (self.submit(from, peer), self.submit(to, inbound)) {
            (Some(outbound), Some(inbound)) => {
                let at = self.ends.len();
                self.ends.push(End { node: from, peer: outbound, inbox: vec![], other: at + 1 });
                self.ends.push(End { node: to, peer: inbound, inbox: vec![], other: at });
            }
            (Some(_), None) => self.runners[from].disconnected(out_addr),
            (None, Some(_)) => self.runners[to].disconnected(in_addr),
            (None, None) => {}
        }
    }

    fn event(&mut self, end: usize, event: PeerEvent) {
        let node = self.ends[end].node;
        match self.runners[node].peer_task_step(&self.ends[end].peer, event) {
            PeerAction::Forward(ping) => self.sink.push((node, ping)),
            PeerAction::Send(msg) => {
                let frame = self.ends[end].peer.write_msg(msg);
                let other = self.ends[end].other;
                self.ends[other].inbox.extend(frame);
            }
            PeerAction::Dial(addrs) => {
                for addr in addrs {
                    let (peer, greeting) = Peer::connect(addr, self.addrs[node]);
                    self.connect(node, peer, greeting);
                }
            }
        }
    }

    fn pump(&mut self) {
        let mut busy = true;
        while busy {
            busy = false;
            for end in 0..self.ends.len() {
                if self.ends[end].inbox.is_empty() {
                    continue;
                }
                busy = true;
                let data = std::mem::take(&mut self.ends[end].inbox);
                let mut next = self.ends[end].peer.read_msg(&data).unwrap();
                while let Some(msg) = next {
                    self.event(end, PeerEvent::Received(msg));
                    next = self.ends[end].peer.parse_msg().unwrap();
                }
            }
        }
    }

    fn complete(&self) -> bool {
        self.runners.iter().all(|r| r.snapshot().len() == self.addrs.len() - 1)
    }
}

fn chain(nodes: u16) -> Mesh {
    let mut mesh = Mesh::new();
    mesh.spawn(Addr::new([127, 0, 0, 1], 2555), None);
    for port in 2556..2555 + nodes {
        mesh.spawn(Addr::new([127, 0, 0, 1], port), Some(Addr::new([127, 0, 0, 1], port - 1)));
    }
    let mut rounds = 0;
    while !mesh.complete() {
        rounds += 1;
        assert!(rounds <= 64, "the mesh did not converge");
        for end in 0..mesh.ends.len() {
            mesh.event(end, PeerEvent::AskPeers);
            mesh.pump();
        }
    }
    mesh
}

#[test]
fn a_chain_of_nodes_learns_every_address() {
    let mesh = chain(6);
    for (node, runner) in mesh.runners.iter().enumerate() {
        let mut known = runner.snapshot();
        known.sort_by_key(|a| a.port());
        let mut expected = mesh.addrs.clone();
        expected.remove(node);
        assert_eq!(known, expected);
    }
    assert_eq!(mesh.ends.len(), 6 * 5);
}

#[test]
fn test_multi_peers() {
    let pings_count = 500;
    let mut mesh = chain(10);
    let drivers = mesh.ends.len();
    assert_eq!(drivers, 10 * 9);
    for _ in 0..pings_count {
        for end in 0..drivers {
            mesh.event(end, PeerEvent::PingTick);
        }
        mesh.pump();
    }
    let expected = pings_count * 10 * 9;
    assert_eq!(mesh.sink.len(), expected);
    assert_eq!(expected, 45000);
    for (node, ping) in &mesh.sink {
        assert_ne!(ping.addr, mesh.addrs[*node]);
        assert!(!ping.ping.is_empty());
    }
    assert_eq!(mesh.ends.len(), drivers);
}
