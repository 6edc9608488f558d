use vstd::prelude::*;

verus! {

/// The address of a remote endpoint, held as plain values so that peers can
/// be compared and tabulated.
#[derive(Clone, Copy, Debug, PartialEq, Eq, Structural, Hash)]
pub enum PeerAddress {
    V4 { ip4: u32, port: u16 },
    V6 { ip6: u128, port: u16, flowinfo: u32, scope_id: u32 },
}

impl PeerAddress {
    /// An IPv4 endpoint from its four octets and a port.
    pub fn v4(a: u8, b: u8, c: u8, d: u8, port: u16) -> (r: PeerAddress)
        ensures
            r == (PeerAddress::V4 {
                ip4: ((a as int) * 0x1000000 + (b as int) * 0x10000 + (c as int) * 0x100 + d as int) as u32,
                port,
            }),
    {
        let ip: u32 = (a as u32) * 0x1000000 + (b as u32) * 0x10000 + (c as u32) * 0x100 + d as u32;
        PeerAddress::V4 { ip4: ip, port }
    }

    /// The port of the endpoint.
    pub fn port(&self) -> (r: u16)
        ensures
            r == match *self {
                PeerAddress::V4 { port, .. } => port,
                PeerAddress::V6 { port, .. } => port,
            },
    {
        match *self {
            PeerAddress::V4 { port, .. } => port,
            PeerAddress::V6 { port, .. } => port,
        }
    }
}

} // verus!
