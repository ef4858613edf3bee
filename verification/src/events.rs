//! Events reported to the host.
//!
//! Each tick phase returns the events it produced, in the order it
//! produced them; the host drains them once per tick. Events are
//! fire-and-forget: the engine keeps no history.
use crate::addr::PeerAddr;
use crate::message::Message;
use crate::message::MessageView;
use crate::payload::bytes_seq;
use vstd::prelude::*;

verus! {

/// An OS-level socket failure, as plain values: the raw OS error code
/// if the OS supplied one, else a negative sentinel chosen by the
/// caller that observed the failure.
#[derive(Clone, Copy, PartialEq, Eq, Structural, Debug)]
pub struct NetError {
    pub code: i32,
}

/// The mathematical content of a [`NetworkEvent`].
#[verifier::ext_equal]
pub enum NetworkEventView {
    Message(PeerAddr, Seq<u8>),
    Connected(PeerAddr),
    Disconnected(PeerAddr),
    RecvError(NetError),
    SendError(NetError, MessageView),
}

/// An occurrence the host should hear about.
pub enum NetworkEvent {
    /// A payload-carrying datagram arrived from this peer.
    Message(PeerAddr, bytes::Bytes),
    /// A first datagram arrived from a peer that was not connected.
    Connected(PeerAddr),
    /// A peer idled out and was evicted from the connection table.
    Disconnected(PeerAddr),
    /// Receiving failed with an OS error other than the would-block
    /// signal, which is never reported.
    RecvError(NetError),
    /// Writing this message to the socket failed; the message is not
    /// retried and is handed back here.
    SendError(NetError, Message),
}

impl View for NetworkEvent {
    type V = NetworkEventView;

    open spec fn view(&self) -> NetworkEventView {
        match self {
            NetworkEvent::Message(a, p) => NetworkEventView::Message(*a, bytes_seq(*p)),
            NetworkEvent::Connected(a) => NetworkEventView::Connected(*a),
            NetworkEvent::Disconnected(a) => NetworkEventView::Disconnected(*a),
            NetworkEvent::RecvError(e) => NetworkEventView::RecvError(*e),
            NetworkEvent::SendError(e, m) => NetworkEventView::SendError(*e, m@),
        }
    }
}

/// The views of a sequence of events, in order.
pub open spec fn events_view(events: Seq<NetworkEvent>) -> Seq<NetworkEventView> {
    events.map_values(|e: NetworkEvent| e@)
}

} // verus!
