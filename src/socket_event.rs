use vstd::prelude::*;
use crate::peer::PeerAddress;

verus! {

/// The connection lifecycle as the caller sees it.
#[derive(Clone, Debug, PartialEq, Eq)]
pub enum SocketEvent {
    /// A peer made contact and was sent the server's greeting.
    Connection(PeerAddress),
    /// An application payload from a peer, decoded as text.
    Message(PeerAddress, String),
    /// A peer stopped answering and was forgotten.
    Disconnection(PeerAddress),
}

/// The mathematical form of a `SocketEvent`: payloads as character sequences.
pub enum Announcement {
    Connection(PeerAddress),
    Message(PeerAddress, Seq<char>),
    Disconnection(PeerAddress),
}

impl Announcement {
    /// The peer that the announcement is about.
    pub open spec fn peer(self) -> PeerAddress {
        match self {
            Announcement::Connection(p) => p,
            Announcement::Message(p, _) => p,
            Announcement::Disconnection(p) => p,
        }
    }
}

impl View for SocketEvent {
    type V = Announcement;

    open spec fn view(&self) -> Announcement {
        match self {
            SocketEvent::Connection(p) => Announcement::Connection(*p),
            SocketEvent::Message(p, text) => Announcement::Message(*p, text@),
            SocketEvent::Disconnection(p) => Announcement::Disconnection(*p),
        }
    }
}

/// The announcement an optional event makes, if any.
pub open spec fn announcement_of(e: Option<SocketEvent>) -> Option<Announcement> {
    match e {
        Some(ev) => Some(ev@),
        None => None,
    }
}

impl SocketEvent {
    /// The peer that the event is about.
    pub fn peer(&self) -> (r: PeerAddress)
        ensures
            r == self@.peer(),
    {
        match self {
            SocketEvent::Connection(p) => *p,
            SocketEvent::Message(p, _) => *p,
            SocketEvent::Disconnection(p) => *p,
        }
    }
}

} // verus!
