use simple_networking::connection::NetworkResource;
use simple_networking::events::NetError;
use simple_networking::heartbeat::HeartbeatTimer;
use simple_networking::systems::auto_heartbeat_system;
use simple_networking::systems::client_recv_packet_system;
use simple_networking::systems::server_recv_packet_system;
use simple_networking::systems::RecvPoll;
use simple_networking::transport::MessageFilter;
use simple_networking::NetworkEvent;
use simple_networking::PeerAddr;
use simple_networking::Transport;
use simple_networking::Urgency;

fn addr_a() -> PeerAddr {
    PeerAddr::v4(172, 16, 0, 1, 9000)
}

#[test]
fn test_server_recv_scenario() {
    // a five-byte datagram then a zero-length heartbeat from the same
    // new peer, then would-block: one connected event, one message
    // event for the five bytes, nothing for the heartbeat, clean stop
    let polls = vec![
        RecvPoll::Datagram(addr_a(), b"hello".to_vec()),
        RecvPoll::Datagram(addr_a(), Vec::new()),
        RecvPoll::WouldBlock,
    ];
    let mut net = NetworkResource::new(5);
    let events = server_recv_packet_system(polls, 0, &mut net);

    assert_eq!(events.len(), 2);
    match &events[0] {
        NetworkEvent::Connected(a) => assert_eq!(*a, addr_a()),
        _ => panic!("expected the connected event first"),
    }
    match &events[1] {
        NetworkEvent::Message(a, payload) => {
            assert_eq!(*a, addr_a());
            assert_eq!(*payload, &b"hello"[..]);
        },
        _ => panic!("expected the message event second"),
    }
    assert!(net.is_connected(addr_a()));
}

#[test]
fn test_server_recv_heartbeat_opens_connection() {
    // a zero-length datagram still counts as activity: it can open a
    // connection, but never becomes a message event
    let polls = vec![RecvPoll::Datagram(addr_a(), Vec::new()), RecvPoll::WouldBlock];
    let mut net = NetworkResource::new(5);
    let events = server_recv_packet_system(polls, 0, &mut net);

    assert_eq!(events.len(), 1);
    assert!(matches!(&events[0], NetworkEvent::Connected(a) if *a == addr_a()));
    assert!(net.is_connected(addr_a()));
}

#[test]
fn test_server_recv_error_emits_event_and_stops() {
    let polls = vec![
        RecvPoll::Failed(NetError { code: 111 }),
        RecvPoll::Datagram(addr_a(), b"late".to_vec()),
    ];
    let mut net = NetworkResource::new(5);
    let events = server_recv_packet_system(polls, 0, &mut net);

    // the failure is reported once and ends the phase: the datagram
    // behind it is left for the next tick
    assert_eq!(events.len(), 1);
    assert!(matches!(&events[0], NetworkEvent::RecvError(e) if e.code == 111));
    assert!(!net.is_connected(addr_a()));
}

#[test]
fn test_client_recv_ignores_heartbeats() {
    let polls = vec![
        RecvPoll::Datagram(addr_a(), Vec::new()),
        RecvPoll::Datagram(addr_a(), b"data".to_vec()),
        RecvPoll::WouldBlock,
    ];
    let events = client_recv_packet_system(polls);

    assert_eq!(events.len(), 1);
    assert!(matches!(&events[0], NetworkEvent::Message(a, p) if *a == addr_a() && *p == &b"data"[..]));
}

#[test]
fn test_client_recv_would_block_is_silent() {
    let events = client_recv_packet_system(vec![RecvPoll::WouldBlock]);
    assert_eq!(events.len(), 0);
}

#[test]
fn test_auto_heartbeat_enqueues_on_interval() {
    let mut timer = HeartbeatTimer::new(2);
    let mut transport = Transport::new();
    let remote = addr_a();

    auto_heartbeat_system(1, &mut timer, remote, &mut transport);
    assert!(!transport.has_messages());

    auto_heartbeat_system(1, &mut timer, remote, &mut transport);
    assert!(transport.has_messages());

    let drained = transport.drain_messages_to_send(&MessageFilter::All);
    assert_eq!(drained.len(), 1);
    assert_eq!(drained[0].destination, remote);
    assert_eq!(drained[0].payload.len(), 0);
    // a heartbeat must never be held back by batching
    assert_eq!(drained[0].urgency, Urgency::Immediate);
}

#[test]
fn test_send_error_event_keeps_message() {
    let message = simple_networking::Message::new(addr_a(), b"lost", Urgency::OnTick);
    let event = NetworkEvent::SendError(NetError { code: -1 }, message);
    match event {
        NetworkEvent::SendError(e, m) => {
            assert_eq!(e.code, -1);
            assert_eq!(m.payload, &b"lost"[..]);
            assert_eq!(m.destination, addr_a());
        },
        _ => panic!("expected a send-error event"),
    }
}
