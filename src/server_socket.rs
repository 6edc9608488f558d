use vstd::prelude::*;
use crate::error::ServerSocketError;
use crate::handshake::{announced, step, table_after, Handshake, Sentinels, Signal};
use crate::message_sender::MessageSender;
use crate::peer::PeerAddress;
use crate::socket_event::{Announcement, SocketEvent};
use crate::transport::{recv_event, socket_address_of};
use laminar::SocketEvent as LaminarEvent;

verus! {

/// The events that one step adds to a history of announcements.
pub open spec fn optional_seq(a: Option<Announcement>) -> Seq<Announcement> {
    match a {
        Some(e) => seq![e],
        None => Seq::empty(),
    }
}

/// Replaying one more signal extends the table and the announced events by
/// what `step` gives for it.
pub proof fn lemma_replay_push(
    s: Sentinels,
    peers: Map<PeerAddress, crate::handshake::PeerState>,
    sigs: Seq<Signal>,
    sig: Signal,
)
    ensures
        table_after(s, peers, sigs.push(sig)) == step(s, table_after(s, peers, sigs), sig).0,
        announced(s, peers, sigs.push(sig)) == announced(s, peers, sigs) + optional_seq(
            step(s, table_after(s, peers, sigs), sig).1,
        ),
    decreases sigs.len(),
{
    assert(sigs.push(sig)[0] == if sigs.len() == 0 {
        sig
    } else {
        sigs[0]
    });
    if sigs.len() == 0 {
        assert(sigs.push(sig).drop_first() =~= Seq::<Signal>::empty());
        assert(table_after(s, step(s, peers, sig).0, Seq::<Signal>::empty()) == step(s, peers, sig).0);
        assert(announced(s, step(s, peers, sig).0, Seq::<Signal>::empty()) =~= Seq::<Announcement>::empty());
        let out = step(s, peers, sig).1;
        if let Some(a) = out {
            assert(seq![a] + Seq::<Announcement>::empty() =~= seq![a]);
        }
        assert(Seq::<Announcement>::empty() + optional_seq(out) =~= optional_seq(out));
    } else {
        let next = step(s, peers, sigs[0]).0;
        lemma_replay_push(s, next, sigs.drop_first(), sig);
        assert(sigs.push(sig).drop_first() =~= sigs.drop_first().push(sig));
        let out = step(s, peers, sigs[0]).1;
        let rest = announced(s, next, sigs.drop_first());
        let tail = optional_seq(step(s, table_after(s, next, sigs.drop_first()), sig).1);
        if let Some(a) = out {
            assert(seq![a] + (rest + tail) =~= (seq![a] + rest) + tail);
        }
    }
}

/// The server end of the connection layer: it holds the transport's outbound
/// channel and event channel, and turns transport events into socket events
/// through the handshake.
pub struct UdpServerSocket {
    sender: crossbeam_channel::Sender<laminar::Packet>,
    receiver: crossbeam_channel::Receiver<LaminarEvent>,
    handshake: Handshake,
    history: Ghost<Seq<Signal>>,
}

impl UdpServerSocket {
    /// The transport signals taken from the event channel so far.
    pub closed spec fn history(&self) -> Seq<Signal> {
        self.history@
    }

    pub closed spec fn sentinels(&self) -> Sentinels {
        self.handshake.sentinels()
    }

    /// Every event that the signals so far have called for, in order.
    pub open spec fn announced_so_far(&self) -> Seq<Announcement> {
        announced(self.sentinels(), Map::empty(), self.history())
    }

    pub closed spec fn wf(&self) -> bool {
        &&& self.handshake.wf()
        &&& self.handshake.table() == table_after(self.sentinels(), Map::empty(), self.history@)
    }

    /// A socket over a transport whose polling loop reads outbound packets
    /// from `sender`'s channel and writes its events to `receiver`'s. New
    /// peers are greeted with `server_sentinel`; `client_sentinel` is the
    /// reply that completes their handshake.
    pub fn new(
        sender: crossbeam_channel::Sender<laminar::Packet>,
        receiver: crossbeam_channel::Receiver<LaminarEvent>,
        server_sentinel: String,
        client_sentinel: String,
    ) -> (r: UdpServerSocket)
        ensures
            r.wf(),
            r.history() == Seq::<Signal>::empty(),
            r.sentinels() == (Sentinels { server: server_sentinel@, client: client_sentinel@ }),
    {
        let handshake = Handshake::new(server_sentinel, client_sentinel);
        UdpServerSocket { sender, receiver, handshake, history: Ghost(Seq::empty()) }
    }

    /// Takes one transport event and applies the handshake to it. A new peer
    /// is sent the server's greeting, reliably, before its `Connection` is
    /// returned. `Ok(None)` means the event was absorbed.
    pub fn poll_event(&mut self) -> (r: Result<Option<SocketEvent>, ServerSocketError>)
        requires
            old(self).wf(),
        ensures
            final(self).wf(),
            final(self).sentinels() == old(self).sentinels(),
            match r {
                Ok(e) => exists|sig: Signal|
                    #![auto]
                    final(self).history() == old(self).history().push(sig)
                        && final(self).announced_so_far() == old(self).announced_so_far()
                        + optional_seq(crate::socket_event::announcement_of(e)),
                Err(ServerSocketError::EventsClosed) => final(self).history()
                    == old(self).history(),
                Err(ServerSocketError::OutboundClosed) => exists|p: PeerAddress|
                    #![auto]
                    final(self).history() == old(self).history().push(Signal::Connect(p))
                        && final(self).announced_so_far() == old(self).announced_so_far().push(
                        Announcement::Connection(p),
                    ),
            },
    {
        match recv_event(&self.receiver) {
            Err(_) => Err(ServerSocketError::EventsClosed),
            Ok(event) => {
                let ghost sig = event.signal();
                proof {
                    lemma_replay_push(self.sentinels(), Map::empty(), self.history@, sig);
                }
                let out = self.handshake.on_event(event);
                self.history = Ghost(self.history@.push(sig));
                match out {
                    Some(SocketEvent::Connection(p)) => {
                        let greeting = self.greeting_bytes();
                        let packet = laminar::Packet::reliable_unordered(socket_address_of(p), greeting);
                        match self.sender.send(packet) {
                            Ok(()) => {
                                assert(self.history() == old(self).history().push(sig));
                                Ok(Some(SocketEvent::Connection(p)))
                            },
                            Err(_) => {
                                assert(optional_seq(Some(Announcement::Connection(p))) =~= seq![Announcement::Connection(p)]);
                                Err(ServerSocketError::OutboundClosed)
                            },
                        }
                    },
                    other => {
                        assert(self.history() == old(self).history().push(sig));
                        Ok(other)
                    },
                }
            },
        }
    }

    /// The bytes of the server's greeting.
    fn greeting_bytes(&self) -> (r: Vec<u8>)
        ensures
            r@ == vstd::utf8::encode_utf8(self.sentinels().server),
    {
        let bytes = self.handshake.server_sentinel().as_str().as_bytes();
        let mut out: Vec<u8> = Vec::new();
        let mut i: usize = 0;
        while i < bytes.len()
            invariant
                i <= bytes@.len(),
                out@ == bytes@.subrange(0, i as int),
            decreases bytes@.len() - i,
        {
            out.push(bytes[i]);
            i = i + 1;
        }
        assert(out@ =~= bytes@);
        out
    }

    /// A new handle on this socket's outbound channel.
    pub fn get_sender(&mut self) -> (r: MessageSender)
        ensures
            *final(self) == *old(self),
    {
        MessageSender::new(self.sender.clone())
    }
}

} // verus!
