//! Peer addresses as plain values.
//!
//! The engine never opens a socket itself; it only uses an address as
//! the unique key of a logical connection and as the destination of an
//! outbound message. A `PeerAddr` therefore carries the bits of an
//! IPv4 or IPv6 socket address as plain integers, which lets contracts
//! compare addresses directly.
use vstd::prelude::*;

verus! {

/// A datagram peer: the 128 address bits (an IPv4 address occupies the
/// low 32 bits of `ip_lo` with `ip_hi == 0`), the port, and which
/// address family the bits belong to.
#[derive(Clone, Copy, PartialEq, Eq, Structural, Debug, Hash)]
pub struct PeerAddr {
    pub ip_hi: u64,
    pub ip_lo: u64,
    pub port: u16,
    pub is_v6: bool,
}

impl PeerAddr {
    /// Builds the address of an IPv4 peer `a.b.c.d:port`.
    pub fn v4(a: u8, b: u8, c: u8, d: u8, port: u16) -> (r: PeerAddr)
        ensures
            r.ip_hi == 0,
            r.ip_lo == (a as int) * 0x1000000 + (b as int) * 0x10000 + (c as int) * 0x100 + (
            d as int),
            r.port == port,
            !r.is_v6,
    {
        PeerAddr {
            ip_hi: 0,
            ip_lo: (a as u64) * 0x1000000 + (b as u64) * 0x10000 + (c as u64) * 0x100 + (d as u64),
            port,
            is_v6: false,
        }
    }

    /// Builds the address of an IPv6 peer from the high and low halves
    /// of its 128 address bits.
    pub fn v6(ip_hi: u64, ip_lo: u64, port: u16) -> (r: PeerAddr)
        ensures
            r == (PeerAddr { ip_hi, ip_lo, port, is_v6: true }),
    {
        PeerAddr { ip_hi, ip_lo, port, is_v6: true }
    }
}

} // verus!
