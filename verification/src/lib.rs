//! A minimal connectionless session layer over datagram sockets:
//! logical connections with idle-timeout eviction, heartbeats, an
//! urgency-tagged outbound message queue, inbound packet
//! classification into events, and an optional fixed-rate network
//! clock.
use vstd::prelude::*;

pub mod addr;
pub mod clock;
pub mod connection;
pub mod events;
pub mod heartbeat;
pub mod message;
pub mod payload;
pub mod systems;
pub mod transport;
pub mod urgency;

pub use addr::PeerAddr;
pub use connection::NetworkResource;
pub use events::NetworkEvent;
pub use message::Message;
pub use transport::Transport;
pub use urgency::Urgency;

verus! {

/// How often a client sends a heartbeat packet, in time units. This
/// should be no more than half of the idle timeout.
pub const DEFAULT_HEARTBEAT_INTERVAL: u64 = 2;

/// How long a peer may stay silent before it is considered
/// disconnected, in time units.
pub const DEFAULT_IDLE_TIMEOUT: u64 = 5;

/// Reports whether an idle timeout is long enough for a heartbeat
/// interval: a well-behaved peer is never spuriously evicted only if
/// the timeout is at least twice the interval.
pub fn intervals_compatible(idle_timeout: u64, heartbeat_interval: u64) -> (r: bool)
    ensures
        r == (idle_timeout as int >= 2 * heartbeat_interval as int),
{
    idle_timeout / 2 >= heartbeat_interval
}

} // verus!
