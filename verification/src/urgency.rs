//! The urgency tag of an outbound message.
use vstd::prelude::*;

verus! {

/// When a queued message becomes eligible for a drain. Typically a
/// message waits for the next scheduled network tick, but the option
/// to send immediately is available; heartbeats use it so that
/// batching cannot delay them past the idle timeout.
#[derive(Clone, Copy, PartialEq, Eq, Structural, Debug)]
pub enum Urgency {
    /// Sent according to the current network tick rate: released only
    /// by a drain whose filter accepts scheduled messages.
    OnTick,
    /// Sent as soon as possible: accepted by every send-eligibility
    /// filter.
    Immediate,
}

} // verus!
