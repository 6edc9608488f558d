use vstd::prelude::*;
use crate::handshake::{announced, lifecycle_ok, step, table_after, PeerState, Sentinels, Signal};
use crate::peer::PeerAddress;
use crate::socket_event::Announcement;

verus! {

/// Whether a peer counts as connected right after `e`, an event about it.
pub open spec fn connected_after(e: Announcement) -> bool {
    !(e is Disconnection)
}

/// Every run of the handshake announces each peer's events in lifecycle
/// order: starting from the table `peers`, a `Connection` of `p` comes only
/// while `p` is not known, and a `Message` or `Disconnection` of `p` only
/// while it is.
pub proof fn lemma_lifecycle(
    s: Sentinels,
    peers: Map<PeerAddress, PeerState>,
    sigs: Seq<Signal>,
    p: PeerAddress,
)
    ensures
        lifecycle_ok(peers.contains_key(p), p, announced(s, peers, sigs)),
    decreases sigs.len(),
{
    if sigs.len() > 0 {
        let (next, out) = step(s, peers, sigs[0]);
        lemma_lifecycle(s, next, sigs.drop_first(), p);
        let rest = announced(s, next, sigs.drop_first());
        if let Some(a) = out {
            assert((seq![a] + rest).drop_first() =~= rest);
        }
    }
}

/// Within a lifecycle-ordered sequence, the first event about `p` is a
/// `Connection` exactly when `p` starts out not connected.
pub proof fn lemma_first_about(connected: bool, p: PeerAddress, es: Seq<Announcement>, j: int)
    requires
        lifecycle_ok(connected, p, es),
        0 <= j < es.len(),
        es[j].peer() == p,
        forall|k: int| 0 <= k < j ==> es[k].peer() != p,
    ensures
        (es[j] is Connection) == !connected,
    decreases es.len(),
{
    if es[0].peer() != p {
        assert(es.drop_first()[j - 1] == es[j]);
        lemma_first_about(connected, p, es.drop_first(), j - 1);
    }
}

/// What follows an event about `p` in a lifecycle-ordered sequence is again
/// lifecycle-ordered, from the connectedness that the event leaves.
pub proof fn lemma_after_event(connected: bool, p: PeerAddress, es: Seq<Announcement>, i: int)
    requires
        lifecycle_ok(connected, p, es),
        0 <= i < es.len(),
        es[i].peer() == p,
    ensures
        lifecycle_ok(connected_after(es[i]), p, es.subrange(i + 1, es.len() as int)),
    decreases es.len(),
{
    if i == 0 {
        assert(es.drop_first() =~= es.subrange(1, es.len() as int));
    } else {
        let c = if es[0].peer() != p {
            connected
        } else {
            connected_after(es[0])
        };
        assert(lifecycle_ok(c, p, es.drop_first()));
        lemma_after_event(c, p, es.drop_first(), i - 1);
        assert(es.drop_first().subrange(i, es.len() - 1) =~= es.subrange(i + 1, es.len() as int));
    }
}

/// For every sequence of transport signals from the empty table, the first
/// event announced about a peer `p` is `Connection(p)`.
pub proof fn lemma_first_event_is_connection(s: Sentinels, sigs: Seq<Signal>, p: PeerAddress, j: int)
    requires
        0 <= j < announced(s, Map::empty(), sigs).len(),
        announced(s, Map::empty(), sigs)[j].peer() == p,
        forall|k: int| 0 <= k < j ==> #[trigger] announced(s, Map::empty(), sigs)[k].peer() != p,
    ensures
        announced(s, Map::empty(), sigs)[j] == Announcement::Connection(p),
{
    lemma_lifecycle(s, Map::empty(), sigs, p);
    lemma_first_about(false, p, announced(s, Map::empty(), sigs), j);
}

/// A `Connection` of `p` is announced once per connection: after it, no
/// second `Connection(p)` comes before a `Disconnection(p)`.
pub proof fn lemma_connection_once(
    s: Sentinels,
    sigs: Seq<Signal>,
    p: PeerAddress,
    i: int,
    j: int,
)
    requires
        0 <= i < j < announced(s, Map::empty(), sigs).len(),
        announced(s, Map::empty(), sigs)[i] == Announcement::Connection(p),
        announced(s, Map::empty(), sigs)[j] == Announcement::Connection(p),
    ensures
        exists|k: int|
            i < k < j && #[trigger] announced(s, Map::empty(), sigs)[k]
                == Announcement::Disconnection(p),
{
    let es = announced(s, Map::empty(), sigs);
    lemma_lifecycle(s, Map::empty(), sigs, p);
    lemma_after_event(false, p, es, i);
    lemma_reconnect_needs_disconnect(p, es.subrange(i + 1, es.len() as int), j - i - 1);
    let rest = es.subrange(i + 1, es.len() as int);
    let k = choose|k: int| 0 <= k < j - i - 1 && #[trigger] rest[k] == Announcement::Disconnection(p);
    assert(es[i + 1 + k] == Announcement::Disconnection(p));
}

proof fn lemma_reconnect_needs_disconnect(p: PeerAddress, es: Seq<Announcement>, j: int)
    requires
        lifecycle_ok(true, p, es),
        0 <= j < es.len(),
        es[j] == Announcement::Connection(p),
    ensures
        exists|k: int| 0 <= k < j && #[trigger] es[k] == Announcement::Disconnection(p),
    decreases es.len(),
{
    if es[0] == Announcement::Disconnection(p) {
        assert(es[0] == Announcement::Disconnection(p));
    } else {
        assert(lifecycle_ok(true, p, es.drop_first()));
        assert(es.drop_first()[j - 1] == es[j]);
        lemma_reconnect_needs_disconnect(p, es.drop_first(), j - 1);
        let tail = es.drop_first();
        let k = choose|k: int| 0 <= k < j - 1 && #[trigger] tail[k] == Announcement::Disconnection(p);
        assert(es[k + 1] == Announcement::Disconnection(p));
    }
}

/// After `Disconnection(p)` is announced, the next event about `p`, if any,
/// is `Connection(p)`: no message from `p`, and no other event, until a fresh
/// connect.
pub proof fn lemma_nothing_after_disconnection(
    s: Sentinels,
    sigs: Seq<Signal>,
    p: PeerAddress,
    i: int,
    j: int,
)
    requires
        0 <= i < j < announced(s, Map::empty(), sigs).len(),
        announced(s, Map::empty(), sigs)[i] == Announcement::Disconnection(p),
        announced(s, Map::empty(), sigs)[j].peer() == p,
        forall|k: int| i < k < j ==> #[trigger] announced(s, Map::empty(), sigs)[k].peer() != p,
    ensures
        announced(s, Map::empty(), sigs)[j] == Announcement::Connection(p),
{
    let es = announced(s, Map::empty(), sigs);
    lemma_lifecycle(s, Map::empty(), sigs, p);
    lemma_after_event(false, p, es, i);
    let rest = es.subrange(i + 1, es.len() as int);
    assert forall|k: int| 0 <= k < j - i - 1 implies #[trigger] rest[k].peer() != p by {
        assert(rest[k] == es[i + 1 + k]);
    }
    lemma_first_about(false, p, rest, j - i - 1);
}

/// A `Connection` is announced only for a connect signal: every signal of
/// another kind announces no `Connection`.
pub proof fn lemma_connection_needs_connect(
    s: Sentinels,
    peers: Map<PeerAddress, PeerState>,
    sig: Signal,
)
    ensures
        step(s, peers, sig).1 matches Some(Announcement::Connection(p)) ==> sig == Signal::Connect(p),
{
}

/// Once `p` is established, packets from it whose text is neither sentinel
/// are announced as messages, one each, in arrival order, and the table is
/// left as it was.
pub proof fn lemma_messages_in_order(
    s: Sentinels,
    peers: Map<PeerAddress, PeerState>,
    p: PeerAddress,
    texts: Seq<Seq<char>>,
)
    requires
        peers.contains_key(p),
        peers[p] == PeerState::Established,
        forall|i: int| 0 <= i < texts.len() ==> #[trigger] texts[i] != s.client && texts[i] != s.server,
    ensures
        announced(s, peers, texts.map_values(|t: Seq<char>| Signal::Packet(p, t))) == texts.map_values(
            |t: Seq<char>| Announcement::Message(p, t),
        ),
        table_after(s, peers, texts.map_values(|t: Seq<char>| Signal::Packet(p, t))) == peers,
    decreases texts.len(),
{
    let sigs = texts.map_values(|t: Seq<char>| Signal::Packet(p, t));
    let msgs = texts.map_values(|t: Seq<char>| Announcement::Message(p, t));
    if texts.len() == 0 {
        assert(msgs =~= Seq::<Announcement>::empty());
    } else {
        let tail = texts.drop_first();
        assert forall|i: int| 0 <= i < tail.len() implies #[trigger] tail[i] != s.client && tail[i]
            != s.server by {
            assert(tail[i] == texts[i + 1]);
        }
        lemma_messages_in_order(s, peers, p, tail);
        assert(sigs.drop_first() =~= tail.map_values(|t: Seq<char>| Signal::Packet(p, t)));
        assert(sigs[0] == Signal::Packet(p, texts[0]));
        assert(msgs =~= seq![Announcement::Message(p, texts[0])] + tail.map_values(
            |t: Seq<char>| Announcement::Message(p, t),
        ));
    }
}

} // verus!
