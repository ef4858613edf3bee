//! The outbound message record.
use crate::addr::PeerAddr;
use crate::payload::bytes_copy_from_slice;
use crate::payload::bytes_seq;
use crate::urgency::Urgency;
use vstd::prelude::*;

verus! {

/// The mathematical content of a [`Message`]: where it goes, the
/// bytes it carries, and how urgently it should be sent.
#[verifier::ext_equal]
pub struct MessageView {
    pub destination: PeerAddr,
    pub payload: Seq<u8>,
    pub urgency: Urgency,
}

/// An immutable send intent. A message is created by the outbound
/// queue's enqueue operation, owned by the queue until a drain removes
/// it, and then handed to the socket writer (or to a send-error event)
/// without ever being mutated.
pub struct Message {
    /// The destination to send the message to.
    pub destination: PeerAddr,
    /// The payload itself.
    pub payload: bytes::Bytes,
    /// The requirement around when this message should be sent.
    pub urgency: Urgency,
}

impl View for Message {
    type V = MessageView;

    open spec fn view(&self) -> MessageView {
        MessageView {
            destination: self.destination,
            payload: bytes_seq(self.payload),
            urgency: self.urgency,
        }
    }
}

impl Message {
    /// Creates a message that carries a copy of `payload`.
    pub fn new(destination: PeerAddr, payload: &[u8], urgency: Urgency) -> (m: Message)
        ensures
            m@ == (MessageView { destination, payload: payload@, urgency }),
    {
        Message { destination, payload: bytes_copy_from_slice(payload), urgency }
    }
}

} // verus!
