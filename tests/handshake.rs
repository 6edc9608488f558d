use gaia_server_socket::{Handshake, PeerAddress, PeerState, SocketEvent, TransportEvent};

const SERVER: &str = "server-hello";
const CLIENT: &str = "client-hello";

fn fresh() -> Handshake {
    Handshake::new(SERVER.to_string(), CLIENT.to_string())
}

fn peer() -> PeerAddress {
    PeerAddress::v4(127, 0, 0, 1, 4000)
}

#[test]
fn v4_address_packs_octets() {
    let a = PeerAddress::v4(192, 168, 1, 2, 7777);
    assert_eq!(a, PeerAddress::V4 { ip4: 0xC0A8_0102, port: 7777 });
    assert_eq!(a.port(), 7777);
}

#[test]
fn connection_announced_once_per_lifetime() {
    let mut h = fresh();
    let p = peer();
    assert_eq!(h.on_connect(p), Some(SocketEvent::Connection(p)));
    assert_eq!(h.state_of(p), Some(PeerState::AwaitingClientAck));
    assert_eq!(h.on_connect(p), None);
    assert_eq!(h.on_timeout(p), Some(SocketEvent::Disconnection(p)));
    assert_eq!(h.on_connect(p), Some(SocketEvent::Connection(p)));
}

#[test]
fn packets_before_connect_are_dropped() {
    let mut h = fresh();
    let p = peer();
    assert_eq!(h.on_packet_text(p, "early".to_string()), None);
    assert_eq!(h.on_timeout(p), None);
    assert_eq!(h.state_of(p), None);
    assert_eq!(h.on_connect(p), Some(SocketEvent::Connection(p)));
}

#[test]
fn sentinels_are_never_messages() {
    let mut h = fresh();
    let p = peer();
    h.on_connect(p);
    assert_eq!(h.on_packet_text(p, SERVER.to_string()), None);
    assert_eq!(h.state_of(p), Some(PeerState::AwaitingClientAck));
    assert_eq!(h.on_packet_text(p, CLIENT.to_string()), None);
    assert_eq!(h.state_of(p), Some(PeerState::Established));
    assert_eq!(h.on_packet_text(p, CLIENT.to_string()), None);
    assert_eq!(h.on_packet_text(p, SERVER.to_string()), None);
    assert_eq!(h.state_of(p), Some(PeerState::Established));
}

#[test]
fn messages_arrive_in_order() {
    let mut h = fresh();
    let p = peer();
    h.on_connect(p);
    h.on_packet_text(p, CLIENT.to_string());
    for text in ["one", "two", "three"] {
        assert_eq!(h.on_packet_text(p, text.to_string()), Some(SocketEvent::Message(p, text.to_string())));
    }
}

#[test]
fn data_before_ack_is_delivered() {
    let mut h = fresh();
    let p = peer();
    h.on_connect(p);
    assert_eq!(h.on_packet_text(p, "x".to_string()), Some(SocketEvent::Message(p, "x".to_string())));
    assert_eq!(h.state_of(p), Some(PeerState::AwaitingClientAck));
}

#[test]
fn nothing_after_disconnection() {
    let mut h = fresh();
    let p = peer();
    h.on_connect(p);
    h.on_packet_text(p, CLIENT.to_string());
    assert_eq!(h.on_timeout(p), Some(SocketEvent::Disconnection(p)));
    assert_eq!(h.on_packet_text(p, "late".to_string()), None);
    assert_eq!(h.on_timeout(p), None);
    assert_eq!(h.state_of(p), None);
}

#[test]
fn handshake_round_trip() {
    let mut h = fresh();
    let p = peer();
    assert_eq!(h.on_event(TransportEvent::Connect(p)), Some(SocketEvent::Connection(p)));
    assert_eq!(h.server_sentinel(), SERVER);
    assert_eq!(h.on_event(TransportEvent::Packet(p, CLIENT.as_bytes().to_vec())), None);
    assert_eq!(h.state_of(p), Some(PeerState::Established));
}

#[test]
fn peers_are_kept_apart() {
    let mut h = fresh();
    let a = PeerAddress::v4(10, 0, 0, 1, 1);
    let b = PeerAddress::v4(10, 0, 0, 1, 2);
    h.on_connect(a);
    h.on_connect(b);
    h.on_packet_text(b, CLIENT.to_string());
    assert_eq!(h.on_timeout(a), Some(SocketEvent::Disconnection(a)));
    assert_eq!(h.state_of(b), Some(PeerState::Established));
    assert_eq!(h.on_packet_text(b, "hi".to_string()), Some(SocketEvent::Message(b, "hi".to_string())));
    assert_eq!(h.on_packet_text(a, "hi".to_string()), None);
}

#[test]
fn invalid_utf8_is_replaced() {
    let mut h = fresh();
    let p = peer();
    h.on_connect(p);
    let event = h.on_event(TransportEvent::Packet(p, vec![0x68, 0x69, 0xff]));
    assert_eq!(event, Some(SocketEvent::Message(p, "hi\u{FFFD}".to_string())));
}
