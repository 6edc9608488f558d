//! A connection-lifecycle layer over a packet transport: raw connect, packet
//! and timeout signals become `Connection`, `Message` and `Disconnection`
//! events, with a two-message handshake absorbed on the way.
use vstd::prelude::*;

pub mod peer;
pub mod socket_event;
pub mod handshake;
pub mod transport;
pub mod lifecycle;
pub mod error;
pub mod message_sender;
pub mod server_socket;
pub mod client_socket;

pub use client_socket::ClientSocketTrait;
pub use error::{ClientSocketError, SendError, ServerSocketError};
pub use handshake::{Handshake, PeerState, TransportEvent};
pub use message_sender::MessageSender;
pub use peer::PeerAddress;
pub use server_socket::UdpServerSocket;
pub use socket_event::SocketEvent;

verus! {

} // verus!
