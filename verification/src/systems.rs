//! The per-tick phases of the engine.
//!
//! Each phase is a function from plain state to plain state: the host
//! (which owns the socket and the clock) polls the socket into a
//! sequence of [`RecvPoll`] results, hands them in here, and performs
//! the writes that the send phase's drain selects. The phases
//! communicate only through the connection table, the outbound queue
//! and the returned events, in the fixed order: receive, send, sweep,
//! heartbeat.
use crate::addr::PeerAddr;
use crate::connection::is_expired;
use crate::connection::surviving;
use crate::connection::NetworkResource;
use crate::events::events_view;
use crate::events::NetError;
use crate::events::NetworkEvent;
use crate::events::NetworkEventView;
use crate::heartbeat::HeartbeatTimer;
use crate::message::MessageView;
use crate::payload::bytes_copy_from_slice;
use crate::transport::Transport;
use crate::urgency::Urgency;
use vstd::prelude::*;

verus! {

/// One result of polling a non-blocking datagram socket.
pub enum RecvPoll {
    /// A datagram holding these bytes arrived from this peer.
    Datagram(PeerAddr, Vec<u8>),
    /// Nothing is pending. This is the receive loop's normal
    /// termination signal, not an error, and produces no event.
    WouldBlock,
    /// Receiving failed with an OS error other than would-block.
    Failed(NetError),
}

/// The events one datagram from `addr` produces on a server whose
/// table already knows the address or not: a connected event first if
/// the peer is new, then a message event if the datagram carries any
/// payload — a zero-length datagram is a heartbeat, pure liveness
/// refresh, and is never surfaced.
pub open spec fn classify_events(known: bool, addr: PeerAddr, payload: Seq<u8>) -> Seq<
    NetworkEventView,
> {
    let connected: Seq<NetworkEventView> = if known {
        Seq::empty()
    } else {
        seq![NetworkEventView::Connected(addr)]
    };
    let content: Seq<NetworkEventView> = if payload.len() > 0 {
        seq![NetworkEventView::Message(addr, payload)]
    } else {
        Seq::empty()
    };
    connected + content
}

/// The events a server's receive phase emits for the poll results
/// `polls`, starting from connection table `table` at time `now`:
/// each datagram is classified and refreshes its sender's entry; a
/// would-block result ends the phase silently; any other failure
/// emits one receive-error event and ends the phase.
pub open spec fn server_recv_events(
    table: Map<PeerAddr, u64>,
    polls: Seq<RecvPoll>,
    now: u64,
) -> Seq<NetworkEventView>
    decreases polls.len(),
{
    if polls.len() == 0 {
        Seq::empty()
    } else {
        match polls[0] {
            RecvPoll::Datagram(addr, payload) => classify_events(
                table.dom().contains(addr),
                addr,
                payload@,
            ) + server_recv_events(table.insert(addr, now), polls.drop_first(), now),
            RecvPoll::WouldBlock => Seq::empty(),
            RecvPoll::Failed(e) => seq![NetworkEventView::RecvError(e)],
        }
    }
}

/// The connection table a server's receive phase leaves behind: every
/// datagram processed before the phase ended marks its sender seen at
/// `now`.
pub open spec fn server_recv_table(
    table: Map<PeerAddr, u64>,
    polls: Seq<RecvPoll>,
    now: u64,
) -> Map<PeerAddr, u64>
    decreases polls.len(),
{
    if polls.len() == 0 {
        table
    } else {
        match polls[0] {
            RecvPoll::Datagram(addr, payload) => server_recv_table(
                table.insert(addr, now),
                polls.drop_first(),
                now,
            ),
            RecvPoll::WouldBlock => table,
            RecvPoll::Failed(e) => table,
        }
    }
}

/// The events a client's receive phase emits for the poll results
/// `polls`: as on the server, but a client keeps no connection table,
/// so datagrams only yield message events.
pub open spec fn client_recv_events(polls: Seq<RecvPoll>) -> Seq<NetworkEventView>
    decreases polls.len(),
{
    if polls.len() == 0 {
        Seq::empty()
    } else {
        match polls[0] {
            RecvPoll::Datagram(addr, payload) => (if payload@.len() > 0 {
                seq![NetworkEventView::Message(addr, payload@)]
            } else {
                Seq::empty()
            }) + client_recv_events(polls.drop_first()),
            RecvPoll::WouldBlock => Seq::empty(),
            RecvPoll::Failed(e) => seq![NetworkEventView::RecvError(e)],
        }
    }
}

/// Appending an event appends its view.
proof fn lemma_events_view_push(s: Seq<NetworkEvent>, e: NetworkEvent)
    ensures
        events_view(s.push(e)) == events_view(s).push(e@),
{
    assert(events_view(s.push(e)) =~= events_view(s).push(e@));
}

/// A datagram from an unknown peer yields exactly one connected
/// event, and it comes before the message event of the same datagram;
/// a datagram from a known peer yields none.
pub proof fn lemma_connected_once(known: bool, addr: PeerAddr, payload: Seq<u8>)
    ensures
        known ==> forall|i: int|
            0 <= i < classify_events(known, addr, payload).len() ==> !(#[trigger] classify_events(
                known,
                addr,
                payload,
            )[i] is Connected),
        !known ==> classify_events(known, addr, payload)[0] == NetworkEventView::Connected(addr),
        !known ==> forall|i: int|
            1 <= i < classify_events(known, addr, payload).len() ==> !(#[trigger] classify_events(
                known,
                addr,
                payload,
            )[i] is Connected),
{
}

/// The server's receive phase: classifies each pending datagram,
/// refreshes the connection table, and reports the events in the
/// order the datagrams arrived, a lifecycle event always preceding
/// the content event of the datagram that caused it.
pub fn server_recv_packet_system(
    polls: Vec<RecvPoll>,
    now: u64,
    net: &mut NetworkResource,
) -> (events: Vec<NetworkEvent>)
    requires
        old(net).wf(),
    ensures
        final(net).wf(),
        final(net).timeout() == old(net).timeout(),
        events_view(events@) == server_recv_events(old(net)@, polls@, now),
        final(net)@ == server_recv_table(old(net)@, polls@, now),
{
    let mut events: Vec<NetworkEvent> = Vec::new();
    let n = polls.len();
    let mut i: usize = 0;
    proof {
        assert(polls@.subrange(0, n as int) =~= polls@);
        assert(events_view(events@) =~= Seq::<NetworkEventView>::empty());
        assert(Seq::<NetworkEventView>::empty() + server_recv_events(net@, polls@, now)
            =~= server_recv_events(net@, polls@, now));
    }
    while i < n
        invariant
            net.wf(),
            net.timeout() == old(net).timeout(),
            n == polls@.len(),
            i <= n,
            server_recv_events(old(net)@, polls@, now) == events_view(events@)
                + server_recv_events(net@, polls@.subrange(i as int, n as int), now),
            server_recv_table(old(net)@, polls@, now) == server_recv_table(
                net@,
                polls@.subrange(i as int, n as int),
                now,
            ),
        decreases n - i,
    {
        let ghost rest = polls@.subrange(i as int, n as int);
        let ghost table0 = net@;
        let ghost events0 = events@;
        proof {
            assert(rest[0] == polls@[i as int]);
            assert(rest.drop_first() =~= polls@.subrange(i + 1, n as int));
        }
        match &polls[i] {
            RecvPoll::Datagram(address, payload) => {
                let newly_connected = net.touch(*address, now);
                if newly_connected {
                    events.push(NetworkEvent::Connected(*address));
                }
                if payload.len() > 0 {
                    let content = bytes_copy_from_slice(payload.as_slice());
                    events.push(NetworkEvent::Message(*address, content));
                }
                proof {
                    let addr = *address;
                    let known = table0.dom().contains(addr);
                    assert(events_view(events@) =~= events_view(events0) + classify_events(
                        known,
                        addr,
                        payload@,
                    ));
                    assert(events_view(events0) + (classify_events(known, addr, payload@)
                        + server_recv_events(net@, rest.drop_first(), now)) =~= (events_view(
                        events0,
                    ) + classify_events(known, addr, payload@)) + server_recv_events(
                        net@,
                        rest.drop_first(),
                        now,
                    ));
                }
            },
            RecvPoll::WouldBlock => {
                return events;
            },
            RecvPoll::Failed(e) => {
                events.push(NetworkEvent::RecvError(*e));
                proof {
                    lemma_events_view_push(events0, NetworkEvent::RecvError(*e));
                    assert(events_view(events@) =~= events_view(events0).push(
                        NetworkEventView::RecvError(*e),
                    ));
                    assert(events_view(events0) + seq![NetworkEventView::RecvError(*e)]
                        =~= events_view(events0).push(NetworkEventView::RecvError(*e)));
                }
                return events;
            },
        }
        i = i + 1;
    }
    proof {
        assert(polls@.subrange(n as int, n as int) =~= Seq::<RecvPoll>::empty());
        assert(events_view(events@) + Seq::<NetworkEventView>::empty() =~= events_view(events@));
    }
    events
}

/// The client's receive phase: like the server's, but without a
/// connection table, so only message and receive-error events come
/// out.
pub fn client_recv_packet_system(polls: Vec<RecvPoll>) -> (events: Vec<NetworkEvent>)
    ensures
        events_view(events@) == client_recv_events(polls@),
{
    let mut events: Vec<NetworkEvent> = Vec::new();
    let n = polls.len();
    let mut i: usize = 0;
    proof {
        assert(polls@.subrange(0, n as int) =~= polls@);
        assert(events_view(events@) =~= Seq::<NetworkEventView>::empty());
        assert(Seq::<NetworkEventView>::empty() + client_recv_events(polls@) =~= client_recv_events(
            polls@,
        ));
    }
    while i < n
        invariant
            n == polls@.len(),
            i <= n,
            client_recv_events(polls@) == events_view(events@) + client_recv_events(
                polls@.subrange(i as int, n as int),
            ),
        decreases n - i,
    {
        let ghost rest = polls@.subrange(i as int, n as int);
        let ghost events0 = events@;
        proof {
            assert(rest[0] == polls@[i as int]);
            assert(rest.drop_first() =~= polls@.subrange(i + 1, n as int));
        }
        match &polls[i] {
            RecvPoll::Datagram(address, payload) => {
                if payload.len() > 0 {
                    let content = bytes_copy_from_slice(payload.as_slice());
                    events.push(NetworkEvent::Message(*address, content));
                }
                proof {
                    let head: Seq<NetworkEventView> = if payload@.len() > 0 {
                        seq![NetworkEventView::Message(*address, payload@)]
                    } else {
                        Seq::empty()
                    };
                    assert(events_view(events@) =~= events_view(events0) + head);
                    assert(events_view(events0) + (head + client_recv_events(rest.drop_first()))
                        =~= (events_view(events0) + head) + client_recv_events(rest.drop_first()));
                }
            },
            RecvPoll::WouldBlock => {
                return events;
            },
            RecvPoll::Failed(e) => {
                events.push(NetworkEvent::RecvError(*e));
                proof {
                    lemma_events_view_push(events0, NetworkEvent::RecvError(*e));
                    assert(events_view(events0) + seq![NetworkEventView::RecvError(*e)]
                        =~= events_view(events0).push(NetworkEventView::RecvError(*e)));
                }
                return events;
            },
        }
        i = i + 1;
    }
    proof {
        assert(polls@.subrange(n as int, n as int) =~= Seq::<RecvPoll>::empty());
        assert(events_view(events@) + Seq::<NetworkEventView>::empty() =~= events_view(events@));
    }
    events
}

/// The idle-timeout phase: sweeps the connection table at `now` and
/// emits exactly one disconnected event per evicted address. It must
/// run after the receive phase, so a datagram arriving this tick can
/// refresh its entry before the sweep checks it.
pub fn idle_timeout_system(now: u64, net: &mut NetworkResource) -> (events: Vec<NetworkEvent>)
    requires
        old(net).wf(),
    ensures
        final(net).wf(),
        final(net).timeout() == old(net).timeout(),
        final(net)@ == surviving(old(net)@, now, old(net).timeout()),
        forall|i: int| 0 <= i < events@.len() ==> #[trigger] events@[i]@ is Disconnected,
        events_view(events@).no_duplicates(),
        forall|a: PeerAddr| #[trigger]
            events_view(events@).contains(NetworkEventView::Disconnected(a)) <==> (old(
                net,
            )@.dom().contains(a) && is_expired(old(net)@[a], now, old(net).timeout())),
{
    let evicted = net.sweep(now);
    let mut events: Vec<NetworkEvent> = Vec::new();
    let n = evicted.len();
    let mut i: usize = 0;
    while i < n
        invariant
            n == evicted@.len(),
            i <= n,
            events@.len() == i,
            forall|k: int|
                0 <= k < i ==> events_view(events@)[k] == NetworkEventView::Disconnected(
                    evicted@[k],
                ),
        decreases n - i,
    {
        let ghost events0 = events@;
        events.push(NetworkEvent::Disconnected(evicted[i]));
        proof {
            lemma_events_view_push(events0, NetworkEvent::Disconnected(evicted@[i as int]));
        }
        i = i + 1;
    }
    proof {
        let ev = events_view(events@);
        assert(ev.len() == evicted@.len());
        assert forall|k: int| 0 <= k < events@.len() implies #[trigger] events@[k]@
            is Disconnected by {
            assert(events_view(events@)[k] == NetworkEventView::Disconnected(evicted@[k]));
            assert(events_view(events@)[k] == events@[k]@);
        }
        assert forall|a: PeerAddr| #[trigger] ev.contains(NetworkEventView::Disconnected(a))
            <==> evicted@.contains(a) by {
            if ev.contains(NetworkEventView::Disconnected(a)) {
                let k = choose|k: int| 0 <= k < ev.len() && ev[k] == NetworkEventView::Disconnected(
                    a,
                );
                assert(evicted@[k] == a);
            }
            if evicted@.contains(a) {
                let k = choose|k: int| 0 <= k < evicted@.len() && evicted@[k] == a;
                assert(ev[k] == NetworkEventView::Disconnected(a));
            }
        }
        assert(ev.no_duplicates()) by {
            assert forall|x: int, y: int| 0 <= x < ev.len() && 0 <= y < ev.len() && x != y implies
                ev[x] != ev[y] by {
                assert(evicted@[x] != evicted@[y]);
            }
        }
    }
    events
}

/// The client's heartbeat phase: advances the heartbeat timer by this
/// tick's delta and, each time the interval elapses, enqueues one
/// zero-length message to the remote peer with immediate urgency, so
/// that batching can never hold a heartbeat past the idle timeout.
pub fn auto_heartbeat_system(
    delta: u64,
    timer: &mut HeartbeatTimer,
    remote_addr: PeerAddr,
    transport: &mut Transport,
)
    requires
        old(timer).wf(),
        old(timer).elapsed + delta <= u64::MAX,
    ensures
        final(timer).wf(),
        final(timer).interval == old(timer).interval,
        final(timer).elapsed == (old(timer).elapsed + delta) % (old(timer).interval as int),
        old(timer).elapsed + delta >= old(timer).interval ==> final(transport)@ == old(
            transport,
        )@.push(final(transport)@.last()) && final(transport)@.last()@ == (MessageView {
            destination: remote_addr,
            payload: Seq::empty(),
            urgency: Urgency::Immediate,
        }),
        old(timer).elapsed + delta < old(timer).interval ==> final(transport)@ == old(transport)@,
{
    if timer.tick(delta) {
        let empty_payload: Vec<u8> = Vec::new();
        transport.send(remote_addr, empty_payload.as_slice(), Urgency::Immediate);
    }
}

} // verus!
