use vstd::prelude::*;
use crate::error::ClientSocketError;
use crate::message_sender::MessageSender;
use crate::socket_event::SocketEvent;

verus! {

/// What every client backend offers, whichever transport carries it.
pub trait ClientSocketTrait {
    /// Waits for the next event from the server, or for the transport to
    /// close.
    fn receive(&mut self) -> Result<SocketEvent, ClientSocketError>;

    /// A handle for sending packets to the server.
    fn get_sender(&mut self) -> MessageSender;
}

} // verus!
