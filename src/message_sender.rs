use vstd::prelude::*;
use crate::error::SendError;
use crate::peer::PeerAddress;
use crate::transport::socket_address_of;

verus! {

/// A handle that queues outbound packets for the transport. Clones share one
/// queue.
pub struct MessageSender {
    sender: crossbeam_channel::Sender<laminar::Packet>,
}

impl Clone for MessageSender {
    fn clone(&self) -> (r: MessageSender) {
        MessageSender { sender: self.sender.clone() }
    }
}

impl MessageSender {
    /// A handle on the outbound channel `sender`.
    pub fn new(sender: crossbeam_channel::Sender<laminar::Packet>) -> (r: MessageSender) {
        MessageSender { sender }
    }

    /// Queues `payload` for `address` as an unreliable, unordered packet.
    /// Fails with `SendError` when the transport's side of the queue is gone;
    /// whether it is depends on the other thread alone.
    pub fn send(&mut self, address: PeerAddress, payload: Vec<u8>) -> (r: Result<(), SendError>) {
        let packet = laminar::Packet::unreliable(socket_address_of(address), payload);
        match self.sender.send(packet) {
            Ok(()) => Ok(()),
            Err(_) => Err(SendError),
        }
    }
}

} // verus!
