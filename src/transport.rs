use vstd::prelude::*;
use crate::handshake::TransportEvent;
use crate::peer::PeerAddress;
use laminar::SocketEvent as LaminarEvent;
use crossbeam_channel::SendError as ChannelSendError;

verus! {

/// The text that a byte payload decodes to, with each invalid UTF-8
/// sequence replaced by U+FFFD.
pub uninterp spec fn lossy_text(bytes: Seq<u8>) -> Seq<char>;

/// Relies on `String::from_utf8_lossy`: the decoded text depends on the bytes
/// alone.
#[verifier::external_body]
pub(crate) fn decode_lossy(bytes: &Vec<u8>) -> (r: String)
    ensures
        r@ == lossy_text(bytes@),
{
    String::from_utf8_lossy(bytes).into_owned()
}

} // verus!

verus! {

#[verifier::external_type_specification]
#[verifier::external_body]
pub struct ExSocketAddr(core::net::SocketAddr);

#[verifier::external_type_specification]
#[verifier::external_body]
pub struct ExPacket(laminar::Packet);

#[verifier::external_type_specification]
#[verifier::external_body]
pub struct ExLaminarEvent(LaminarEvent);

#[verifier::external_type_specification]
#[verifier::external_body]
#[verifier::reject_recursive_types(T)]
pub struct ExSender<T>(crossbeam_channel::Sender<T>);

#[verifier::external_type_specification]
#[verifier::external_body]
#[verifier::reject_recursive_types(T)]
pub struct ExReceiver<T>(crossbeam_channel::Receiver<T>);

#[verifier::external_type_specification]
#[verifier::external_body]
#[verifier::reject_recursive_types(T)]
pub struct ExSendError<T>(ChannelSendError<T>);

#[verifier::external_type_specification]
#[verifier::external_body]
pub struct ExRecvError(crossbeam_channel::RecvError);

/// Relies on laminar's `Packet::unreliable`: a packet for `addr` with no
/// delivery or ordering guarantee.
pub assume_specification[ laminar::Packet::unreliable ](
    addr: core::net::SocketAddr,
    payload: Vec<u8>,
) -> laminar::Packet;

/// Relies on laminar's `Packet::reliable_unordered`: a packet for `addr` that
/// the transport retransmits until acknowledged.
pub assume_specification[ laminar::Packet::reliable_unordered ](
    addr: core::net::SocketAddr,
    payload: Vec<u8>,
) -> laminar::Packet;

/// Relies on crossbeam's `Sender::send`: queues `msg`, or fails once every
/// receiver is gone. Whether it fails depends on the other side.
pub assume_specification<T>[ crossbeam_channel::Sender::<T>::send ](
    s: &crossbeam_channel::Sender<T>,
    msg: T,
) -> Result<(), ChannelSendError<T>>;

/// Relies on crossbeam's `Clone` for `Sender`: another handle on the same
/// channel.
pub assume_specification<T>[ <crossbeam_channel::Sender<T> as Clone>::clone ](
    s: &crossbeam_channel::Sender<T>,
) -> crossbeam_channel::Sender<T>;

/// Relies on `SocketAddr`'s accessors (`ip`, `port`, `flowinfo`,
/// `scope_id`): the endpoint as plain values.
#[verifier::external_body]
pub(crate) fn peer_address_of(a: core::net::SocketAddr) -> (r: PeerAddress) {
    match a {
        core::net::SocketAddr::V4(v4) => PeerAddress::V4 { ip4: u32::from(*v4.ip()), port: v4.port() },
        core::net::SocketAddr::V6(v6) => PeerAddress::V6 {
            ip6: u128::from(*v6.ip()),
            port: v6.port(),
            flowinfo: v6.flowinfo(),
            scope_id: v6.scope_id(),
        },
    }
}

/// Relies on `SocketAddrV4::new` and `SocketAddrV6::new`: the endpoint that
/// the plain values describe.
#[verifier::external_body]
pub(crate) fn socket_address_of(p: PeerAddress) -> (r: core::net::SocketAddr) {
    match p {
        PeerAddress::V4 { ip4, port } => core::net::SocketAddr::V4(
            core::net::SocketAddrV4::new(core::net::Ipv4Addr::from(ip4), port),
        ),
        PeerAddress::V6 { ip6, port, flowinfo, scope_id } => core::net::SocketAddr::V6(
            core::net::SocketAddrV6::new(core::net::Ipv6Addr::from(ip6), port, flowinfo, scope_id),
        ),
    }
}

/// Relies on crossbeam's `Receiver::recv`, which blocks until an event or
/// until every sender is gone, and on laminar's `Packet::addr` and
/// `Packet::payload`. Which event comes depends on the network.
#[verifier::external_body]
pub(crate) fn recv_event(r: &crossbeam_channel::Receiver<LaminarEvent>) -> (res: Result<
    TransportEvent,
    crossbeam_channel::RecvError,
>) {
    match r.recv() {
        Ok(LaminarEvent::Connect(a)) => Ok(TransportEvent::Connect(peer_address_of(a))),
        Ok(LaminarEvent::Packet(p)) => Ok(
            TransportEvent::Packet(peer_address_of(p.addr()), p.payload().to_vec()),
        ),
        Ok(LaminarEvent::Timeout(a)) => Ok(TransportEvent::Timeout(peer_address_of(a))),
        Err(e) => Err(e),
    }
}

} // verus!
