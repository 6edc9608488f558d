use crossbeam_channel::{unbounded, Receiver, Sender};
use gaia_server_socket::{
    PeerAddress, SendError, ServerSocketError, SocketEvent, UdpServerSocket,
};
use laminar::{Packet, SocketEvent as LaminarEvent};

const SERVER: &str = "server-hello";
const CLIENT: &str = "client-hello";

struct Rig {
    socket: UdpServerSocket,
    events: Sender<LaminarEvent>,
    outbound: Receiver<Packet>,
}

fn rig() -> Rig {
    let (packet_tx, packet_rx) = unbounded();
    let (event_tx, event_rx) = unbounded();
    let socket = UdpServerSocket::new(packet_tx, event_rx, SERVER.to_string(), CLIENT.to_string());
    Rig { socket, events: event_tx, outbound: packet_rx }
}

fn receive(socket: &mut UdpServerSocket) -> Result<SocketEvent, ServerSocketError> {
    loop {
        if let Some(e) = socket.poll_event()? {
            return Ok(e);
        }
    }
}

#[test]
fn hello_scenario() {
    let mut r = rig();
    let addr = "127.0.0.1:7777".parse().unwrap();
    let client = PeerAddress::v4(127, 0, 0, 1, 7777);
    r.events.send(LaminarEvent::Connect(addr)).unwrap();
    r.events.send(LaminarEvent::Packet(Packet::reliable_unordered(addr, CLIENT.as_bytes().to_vec()))).unwrap();
    r.events.send(LaminarEvent::Packet(Packet::unreliable(addr, b"hello".to_vec()))).unwrap();
    assert_eq!(receive(&mut r.socket), Ok(SocketEvent::Connection(client)));
    assert_eq!(receive(&mut r.socket), Ok(SocketEvent::Message(client, "hello".to_string())));
    assert!(r.events.is_empty());
}

#[test]
fn greeting_precedes_connection() {
    let mut r = rig();
    let addr = "127.0.0.1:7777".parse().unwrap();
    r.events.send(LaminarEvent::Connect(addr)).unwrap();
    assert_eq!(r.socket.poll_event(), Ok(Some(SocketEvent::Connection(PeerAddress::v4(127, 0, 0, 1, 7777)))));
    let greeting = r.outbound.try_recv().unwrap();
    assert_eq!(greeting.addr(), addr);
    assert_eq!(greeting.payload(), SERVER.as_bytes());
    assert!(r.outbound.try_recv().is_err());
}

#[test]
fn silent_peer_disconnects() {
    let mut r = rig();
    let addr = "127.0.0.1:7777".parse().unwrap();
    let client = PeerAddress::v4(127, 0, 0, 1, 7777);
    r.events.send(LaminarEvent::Connect(addr)).unwrap();
    r.events.send(LaminarEvent::Timeout(addr)).unwrap();
    r.events.send(LaminarEvent::Packet(Packet::unreliable(addr, b"late".to_vec()))).unwrap();
    r.events.send(LaminarEvent::Timeout(addr)).unwrap();
    assert_eq!(r.socket.poll_event(), Ok(Some(SocketEvent::Connection(client))));
    assert_eq!(r.socket.poll_event(), Ok(Some(SocketEvent::Disconnection(client))));
    assert_eq!(r.socket.poll_event(), Ok(None));
    assert_eq!(r.socket.poll_event(), Ok(None));
}

#[test]
fn closed_event_channel_is_an_error() {
    let mut r = rig();
    drop(r.events);
    assert_eq!(r.socket.poll_event(), Err(ServerSocketError::EventsClosed));
}

#[test]
fn closed_outbound_channel_fails_greeting() {
    let mut r = rig();
    let addr = "127.0.0.1:7777".parse().unwrap();
    drop(r.outbound);
    r.events.send(LaminarEvent::Connect(addr)).unwrap();
    assert_eq!(r.socket.poll_event(), Err(ServerSocketError::OutboundClosed));
}

#[test]
fn ipv6_peer_address() {
    let mut r = rig();
    let addr = "[::1]:9000".parse().unwrap();
    r.events.send(LaminarEvent::Connect(addr)).unwrap();
    let expected = PeerAddress::V6 { ip6: 1, port: 9000, flowinfo: 0, scope_id: 0 };
    assert_eq!(r.socket.poll_event(), Ok(Some(SocketEvent::Connection(expected))));
    assert_eq!(r.outbound.try_recv().unwrap().addr(), addr);
}

#[test]
fn sender_queues_unreliable_packet() {
    let mut r = rig();
    let mut sender = r.socket.get_sender();
    let mut other = sender.clone();
    let peer = PeerAddress::v4(10, 1, 2, 3, 5000);
    assert_eq!(sender.send(peer, b"abc".to_vec()), Ok(()));
    assert_eq!(other.send(peer, b"def".to_vec()), Ok(()));
    let first = r.outbound.try_recv().unwrap();
    assert_eq!(first.addr(), "10.1.2.3:5000".parse().unwrap());
    assert_eq!(first.payload(), b"abc");
    assert_eq!(first.delivery_guarantee(), laminar::DeliveryGuarantee::Unreliable);
    assert_eq!(r.outbound.try_recv().unwrap().payload(), b"def");
}

#[test]
fn sender_reports_closed_queue() {
    let mut r = rig();
    let mut sender = r.socket.get_sender();
    drop(r.outbound);
    assert_eq!(sender.send(PeerAddress::v4(10, 1, 2, 3, 5000), vec![1]), Err(SendError));
}
