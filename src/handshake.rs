use vstd::prelude::*;
use crate::peer::PeerAddress;
use crate::socket_event::{announcement_of, Announcement, SocketEvent};
use crate::transport::{decode_lossy, lossy_text};

verus! {

/// How far a known peer has come through the handshake.
#[derive(Clone, Copy, Debug, PartialEq, Eq, Structural)]
pub enum PeerState {
    /// The server's greeting was sent; the client's reply has not arrived.
    AwaitingClientAck,
    /// The client's reply arrived: payloads are application data.
    Established,
}

/// One row of the peer table.
#[derive(Clone, Copy, Debug, PartialEq, Eq, Structural)]
pub struct PeerEntry {
    pub address: PeerAddress,
    pub state: PeerState,
}

/// A raw signal of the transport, with its payload as bytes.
#[derive(Clone, Debug, PartialEq, Eq)]
pub enum TransportEvent {
    Connect(PeerAddress),
    Packet(PeerAddress, Vec<u8>),
    Timeout(PeerAddress),
}

/// The mathematical form of a transport signal: a packet's payload is the
/// text it decodes to.
pub enum Signal {
    Connect(PeerAddress),
    Packet(PeerAddress, Seq<char>),
    Timeout(PeerAddress),
}

impl TransportEvent {
    /// The signal this event stands for once its payload is decoded.
    pub open spec fn signal(&self) -> Signal {
        match self {
            TransportEvent::Connect(p) => Signal::Connect(*p),
            TransportEvent::Packet(p, bytes) => Signal::Packet(*p, lossy_text(bytes@)),
            TransportEvent::Timeout(p) => Signal::Timeout(*p),
        }
    }
}

/// The two fixed payloads of the handshake, in their mathematical form.
pub struct Sentinels {
    pub server: Seq<char>,
    pub client: Seq<char>,
}

/// What one signal does to the peer table, and what the caller is told.
pub open spec fn step(
    s: Sentinels,
    peers: Map<PeerAddress, PeerState>,
    sig: Signal,
) -> (Map<PeerAddress, PeerState>, Option<Announcement>) {
    match sig {
        Signal::Connect(p) => if peers.contains_key(p) {
            (peers, None)
        } else {
            (peers.insert(p, PeerState::AwaitingClientAck), Some(Announcement::Connection(p)))
        },
        Signal::Packet(p, text) => if !peers.contains_key(p) {
            (peers, None)
        } else if text == s.client {
            (peers.insert(p, PeerState::Established), None)
        } else if text == s.server {
            (peers, None)
        } else {
            (peers, Some(Announcement::Message(p, text)))
        },
        Signal::Timeout(p) => if peers.contains_key(p) {
            (peers.remove(p), Some(Announcement::Disconnection(p)))
        } else {
            (peers, None)
        },
    }
}

/// The peer table after a sequence of signals.
pub open spec fn table_after(s: Sentinels, peers: Map<PeerAddress, PeerState>, sigs: Seq<Signal>) -> Map<
    PeerAddress,
    PeerState,
>
    decreases sigs.len(),
{
    if sigs.len() == 0 {
        peers
    } else {
        table_after(s, step(s, peers, sigs[0]).0, sigs.drop_first())
    }
}

/// The events announced, in order, for a sequence of signals.
pub open spec fn announced(s: Sentinels, peers: Map<PeerAddress, PeerState>, sigs: Seq<Signal>) -> Seq<
    Announcement,
>
    decreases sigs.len(),
{
    if sigs.len() == 0 {
        Seq::empty()
    } else {
        let (next, out) = step(s, peers, sigs[0]);
        let rest = announced(s, next, sigs.drop_first());
        match out {
            Some(a) => seq![a] + rest,
            None => rest,
        }
    }
}

/// Whether the events in `es` about peer `p` follow its lifecycle, starting
/// connected or not: a `Connection` only while not connected, `Message` and
/// `Disconnection` only while connected.
pub open spec fn lifecycle_ok(connected: bool, p: PeerAddress, es: Seq<Announcement>) -> bool
    decreases es.len(),
{
    if es.len() == 0 {
        true
    } else if es[0].peer() != p {
        lifecycle_ok(connected, p, es.drop_first())
    } else {
        match es[0] {
            Announcement::Connection(_) => !connected && lifecycle_ok(true, p, es.drop_first()),
            Announcement::Message(_, _) => connected && lifecycle_ok(true, p, es.drop_first()),
            Announcement::Disconnection(_) => connected && lifecycle_ok(false, p, es.drop_first()),
        }
    }
}

pub open spec fn has_address(entries: Seq<PeerEntry>, a: PeerAddress) -> bool {
    exists|i: int| 0 <= i < entries.len() && entries[i].address == a
}

/// The peer table that a list of rows with distinct addresses stands for.
pub open spec fn table_of(entries: Seq<PeerEntry>) -> Map<PeerAddress, PeerState> {
    Map::new(
        |a: PeerAddress| has_address(entries, a),
        |a: PeerAddress|
            entries[choose|i: int| 0 <= i < entries.len() && entries[i].address == a].state,
    )
}

pub open spec fn distinct_addresses(entries: Seq<PeerEntry>) -> bool {
    forall|i: int, j: int|
        0 <= i < entries.len() && 0 <= j < entries.len() && entries[i].address
            == entries[j].address ==> i == j
}

/// The server side of the handshake: which peers are known, and how far each
/// has come.
pub struct Handshake {
    server_sentinel: String,
    client_sentinel: String,
    peers: Vec<PeerEntry>,
}

impl Handshake {
    pub closed spec fn wf(&self) -> bool {
        distinct_addresses(self.peers@)
    }

    /// The known peers and their states.
    pub closed spec fn table(&self) -> Map<PeerAddress, PeerState> {
        table_of(self.peers@)
    }

    pub closed spec fn sentinels(&self) -> Sentinels {
        Sentinels { server: self.server_sentinel@, client: self.client_sentinel@ }
    }

    /// A handshake that knows no peer yet. `server_sentinel` greets each new
    /// peer; `client_sentinel` is the reply that completes its handshake.
    pub fn new(server_sentinel: String, client_sentinel: String) -> (r: Handshake)
        ensures
            r.wf(),
            r.table() == Map::<PeerAddress, PeerState>::empty(),
            r.sentinels() == (Sentinels { server: server_sentinel@, client: client_sentinel@ }),
    {
        let r = Handshake { server_sentinel, client_sentinel, peers: Vec::new() };
        assert(r.table() =~= Map::<PeerAddress, PeerState>::empty());
        r
    }

    /// The greeting sent to each new peer.
    pub fn server_sentinel(&self) -> (r: &String)
        ensures
            r@ == self.sentinels().server,
    {
        &self.server_sentinel
    }

    /// The reply that completes a peer's handshake.
    pub fn client_sentinel(&self) -> (r: &String)
        ensures
            r@ == self.sentinels().client,
    {
        &self.client_sentinel
    }

    fn find(&self, a: PeerAddress) -> (r: Option<usize>)
        requires
            self.wf(),
        ensures
            match r {
                Some(i) => i < self.peers@.len() && self.peers@[i as int].address == a,
                None => !has_address(self.peers@, a),
            },
    {
        let mut i: usize = 0;
        while i < self.peers.len()
            invariant
                i <= self.peers@.len(),
                forall|j: int| 0 <= j < i ==> self.peers@[j].address != a,
            decreases self.peers@.len() - i,
        {
            if self.peers[i].address == a {
                return Some(i);
            }
            i = i + 1;
        }
        None
    }

    proof fn lemma_row(entries: Seq<PeerEntry>, i: int)
        requires
            distinct_addresses(entries),
            0 <= i < entries.len(),
        ensures
            table_of(entries).contains_key(entries[i].address),
            table_of(entries)[entries[i].address] == entries[i].state,
    {
        let a = entries[i].address;
        assert(has_address(entries, a));
        let k = choose|k: int| 0 <= k < entries.len() && entries[k].address == a;
        assert(k == i);
    }

    /// The state of peer `a`, if it is known.
    pub fn state_of(&self, a: PeerAddress) -> (r: Option<PeerState>)
        requires
            self.wf(),
        ensures
            r == (if self.table().contains_key(a) {
                Some(self.table()[a])
            } else {
                None::<PeerState>
            }),
    {
        match self.find(a) {
            Some(i) => {
                proof {
                    Self::lemma_row(self.peers@, i as int);
                }
                Some(self.peers[i].state)
            },
            None => None,
        }
    }

    /// A transport-level connect from `a`. A peer not yet known is recorded as
    /// awaiting the client's reply and announced; a known one is ignored.
    pub fn on_connect(&mut self, a: PeerAddress) -> (r: Option<SocketEvent>)
        requires
            old(self).wf(),
        ensures
            final(self).wf(),
            final(self).sentinels() == old(self).sentinels(),
            (final(self).table(), announcement_of(r)) == step(
                old(self).sentinels(),
                old(self).table(),
                Signal::Connect(a),
            ),
    {
        match self.find(a) {
            Some(i) => {
                proof {
                    Self::lemma_row(self.peers@, i as int);
                }
                None
            },
            None => {
                let ghost before = self.peers@;
                self.peers.push(PeerEntry { address: a, state: PeerState::AwaitingClientAck });
                proof {
                    let after = self.peers@;
                    assert forall|k: int| 0 <= k < before.len() implies after[k] == before[k] by {}
                    assert(after[before.len() as int].address == a);
                    let m = before.len() as int;
                    assert forall|x: PeerAddress|
                        #![auto]
                        table_of(after).contains_key(x) == table_of(before).insert(
                            a,
                            PeerState::AwaitingClientAck,
                        ).contains_key(x) by {
                        if x != a && has_address(after, x) {
                            let k = choose|k: int| 0 <= k < after.len() && after[k].address == x;
                            assert(before[k].address == x);
                        }
                        if x == a {
                            assert(after[m].address == x);
                        }
                    }
                    assert forall|x: PeerAddress| #[trigger]
                        table_of(after).contains_key(x) implies table_of(after)[x] == table_of(
                            before,
                        ).insert(a, PeerState::AwaitingClientAck)[x] by {
                        let k = choose|k: int| 0 <= k < after.len() && after[k].address == x;
                        Self::lemma_row(after, k);
                        if x != a {
                            Self::lemma_row(before, k);
                        }
                    }
                    assert(table_of(after) =~= table_of(before).insert(
                        a,
                        PeerState::AwaitingClientAck,
                    ));
                }
                Some(SocketEvent::Connection(a))
            },
        }
    }

    /// A transport-level timeout of `a`. A known peer is forgotten and its
    /// disconnection announced; an unknown one is ignored.
    pub fn on_timeout(&mut self, a: PeerAddress) -> (r: Option<SocketEvent>)
        requires
            old(self).wf(),
        ensures
            final(self).wf(),
            final(self).sentinels() == old(self).sentinels(),
            (final(self).table(), announcement_of(r)) == step(
                old(self).sentinels(),
                old(self).table(),
                Signal::Timeout(a),
            ),
    {
        match self.find(a) {
            Some(i) => {
                let ghost before = self.peers@;
                proof {
                    Self::lemma_row(before, i as int);
                }
                self.peers.remove(i);
                proof {
                    let after = self.peers@;
                    assert forall|k: int| 0 <= k < after.len() implies #[trigger] after[k] == (if k
                        < i {
                        before[k]
                    } else {
                        before[k + 1]
                    }) by {}
                    assert forall|x: PeerAddress|
                        #![auto]
                        table_of(after).contains_key(x) == table_of(before).remove(a).contains_key(
                            x,
                        ) by {
                        if has_address(after, x) {
                            let k = choose|k: int| 0 <= k < after.len() && after[k].address == x;
                            if k < i {
                                assert(before[k].address == x);
                            } else {
                                assert(before[k + 1].address == x);
                            }
                        }
                        if x != a && has_address(before, x) {
                            let k = choose|k: int| 0 <= k < before.len() && before[k].address == x;
                            if k < i {
                                assert(after[k].address == x);
                            } else {
                                assert(after[k - 1].address == x);
                            }
                        }
                    }
                    assert forall|x: PeerAddress| #[trigger]
                        table_of(after).contains_key(x) implies table_of(after)[x] == table_of(
                            before,
                        )[x] by {
                        let k = choose|k: int| 0 <= k < after.len() && after[k].address == x;
                        Self::lemma_row(after, k);
                        if k < i {
                            Self::lemma_row(before, k);
                        } else {
                            Self::lemma_row(before, k + 1);
                        }
                    }
                    assert(table_of(after) =~= table_of(before).remove(a));
                }
                Some(SocketEvent::Disconnection(a))
            },
            None => None,
        }
    }
    /// A packet from `a`, decoded to `text`. Packets from unknown peers are
    /// dropped. The client's reply moves the peer to `Established`, and
    /// neither sentinel is ever announced; any other text is announced as a
    /// message.
    pub fn on_packet_text(&mut self, a: PeerAddress, text: String) -> (r: Option<SocketEvent>)
        requires
            old(self).wf(),
        ensures
            final(self).wf(),
            final(self).sentinels() == old(self).sentinels(),
            (final(self).table(), announcement_of(r)) == step(
                old(self).sentinels(),
                old(self).table(),
                Signal::Packet(a, text@),
            ),
            r matches Some(e) ==> e == SocketEvent::Message(a, text),
            text@ == old(self).sentinels().client || text@ == old(self).sentinels().server
                ==> r is None,
    {
        match self.find(a) {
            None => None,
            Some(i) => {
                proof {
                    Self::lemma_row(self.peers@, i as int);
                }
                if text == self.client_sentinel {
                    let ghost before = self.peers@;
                    self.peers.set(i, PeerEntry { address: a, state: PeerState::Established });
                    proof {
                        let after = self.peers@;
                        assert forall|k: int| 0 <= k < after.len() implies #[trigger] after[k].address
                            == before[k].address by {}
                        assert forall|x: PeerAddress|
                            #![auto]
                            has_address(after, x) == has_address(before, x) by {
                            if has_address(after, x) {
                                let k = choose|k: int| 0 <= k < after.len() && after[k].address == x;
                                assert(before[k].address == x);
                            }
                            if has_address(before, x) {
                                let k = choose|k: int| 0 <= k < before.len() && before[k].address == x;
                                assert(after[k].address == x);
                            }
                        }
                        assert forall|x: PeerAddress| #[trigger]
                            table_of(after).contains_key(x) implies table_of(after)[x] == table_of(
                                before,
                            ).insert(a, PeerState::Established)[x] by {
                            let k = choose|k: int| 0 <= k < after.len() && after[k].address == x;
                            Self::lemma_row(after, k);
                            if x != a {
                                Self::lemma_row(before, k);
                            }
                        }
                        assert(table_of(after) =~= table_of(before).insert(a, PeerState::Established));
                    }
                    None
                } else if text == self.server_sentinel {
                    None
                } else {
                    Some(SocketEvent::Message(a, text))
                }
            },
        }
    }

    /// One transport event: its payload, if any, is decoded, and the signal
    /// is applied as `step` says.
    pub fn on_event(&mut self, event: TransportEvent) -> (r: Option<SocketEvent>)
        requires
            old(self).wf(),
        ensures
            final(self).wf(),
            final(self).sentinels() == old(self).sentinels(),
            (final(self).table(), announcement_of(r)) == step(
                old(self).sentinels(),
                old(self).table(),
                event.signal(),
            ),
    {
        match event {
            TransportEvent::Connect(a) => self.on_connect(a),
            TransportEvent::Packet(a, bytes) => {
                let text = decode_lossy(&bytes);
                self.on_packet_text(a, text)
            },
            TransportEvent::Timeout(a) => self.on_timeout(a),
        }
    }
}

} // verus!
