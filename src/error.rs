use vstd::prelude::*;

verus! {

/// Why a call on a server socket failed. Either way the polling loop that
/// feeds the socket is gone.
#[derive(Clone, Copy, Debug, PartialEq, Eq, Structural)]
pub enum ServerSocketError {
    /// The channel of incoming transport events was closed.
    EventsClosed,
    /// The outbound channel was closed, so a new peer could not be greeted.
    OutboundClosed,
}

/// A send through a `MessageSender` found the outbound channel closed.
#[derive(Clone, Copy, Debug, PartialEq, Eq, Structural)]
pub struct SendError;

} // verus!

verus! {

/// Why a client socket could not deliver an event.
#[derive(Clone, Copy, Debug, PartialEq, Eq, Structural)]
pub enum ClientSocketError {
    /// The transport's event source was closed.
    EventsClosed,
}

} // verus!
