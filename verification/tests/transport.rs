use simple_networking::transport::send_filter;
use simple_networking::transport::MessageFilter;
use simple_networking::transport::Transport;
use simple_networking::PeerAddr;
use simple_networking::Urgency;

fn heartbeat_payload() -> &'static [u8] {
    b""
}

fn test_payload() -> &'static [u8] {
    b"test"
}

fn create_test_transport() -> Transport {
    Transport::new()
}

fn test_addr() -> PeerAddr {
    PeerAddr::v4(127, 0, 0, 1, 3000)
}

#[test]
fn test_send() {
    let mut transport = create_test_transport();

    transport.send(test_addr(), test_payload(), Urgency::OnTick);

    let packet = &transport.get_messages()[0];

    assert_eq!(transport.get_messages().len(), 1);
    assert_eq!(packet.payload, test_payload());
}

#[test]
fn test_has_messages() {
    let mut transport = create_test_transport();
    assert_eq!(transport.has_messages(), false);
    transport.send(test_addr(), test_payload(), Urgency::OnTick);
    assert_eq!(transport.has_messages(), true);
}

#[test]
fn test_drain_only_heartbeat_messages() {
    let mut transport = create_test_transport();

    let addr = test_addr();
    transport.send(addr, test_payload(), Urgency::OnTick);
    transport.send(addr, heartbeat_payload(), Urgency::OnTick);
    transport.send(addr, test_payload(), Urgency::OnTick);
    transport.send(addr, heartbeat_payload(), Urgency::OnTick);
    transport.send(addr, test_payload(), Urgency::OnTick);

    let heartbeat_filter = MessageFilter::PayloadIs(heartbeat_payload().to_vec());
    assert_eq!(transport.drain_messages_to_send(&heartbeat_filter).len(), 2);
    // validate removal
    assert_eq!(transport.drain_messages_to_send(&heartbeat_filter).len(), 0);
    assert_eq!(transport.drain_messages_to_send(&MessageFilter::Nothing).len(), 0);
    assert_eq!(transport.drain_messages_to_send(&MessageFilter::All).len(), 3);
    // validate removal
    assert_eq!(transport.drain_messages_to_send(&MessageFilter::All).len(), 0);
}

#[test]
fn test_full_drain_returns_insertion_order_and_empties() {
    let mut transport = create_test_transport();
    let addr = test_addr();
    transport.send(addr, b"first", Urgency::OnTick);
    transport.send(addr, b"second", Urgency::Immediate);
    transport.send(addr, b"third", Urgency::OnTick);

    let drained = transport.drain_messages_to_send(&MessageFilter::All);
    assert_eq!(drained.len(), 3);
    assert_eq!(drained[0].payload, &b"first"[..]);
    assert_eq!(drained[1].payload, &b"second"[..]);
    assert_eq!(drained[2].payload, &b"third"[..]);
    assert!(!transport.has_messages());

    // a second full drain of the now-empty queue returns nothing
    let again = transport.drain_messages_to_send(&MessageFilter::All);
    assert_eq!(again.len(), 0);
}

#[test]
fn test_drain_partitions_by_predicate() {
    let mut transport = create_test_transport();
    let addr = test_addr();
    transport.send(addr, b"a", Urgency::OnTick);
    transport.send(addr, b"b", Urgency::Immediate);
    transport.send(addr, b"c", Urgency::OnTick);
    transport.send(addr, b"d", Urgency::Immediate);

    let immediate = transport.drain_messages_to_send(
        &MessageFilter::UrgencyIs(Urgency::Immediate),
    );
    assert_eq!(immediate.len(), 2);
    assert_eq!(immediate[0].payload, &b"b"[..]);
    assert_eq!(immediate[1].payload, &b"d"[..]);

    // the complement stays queued, in its original order
    let rest = transport.get_messages();
    assert_eq!(rest.len(), 2);
    assert_eq!(rest[0].payload, &b"a"[..]);
    assert_eq!(rest[1].payload, &b"c"[..]);
    assert_eq!(rest[0].urgency, Urgency::OnTick);
    assert_eq!(rest[1].urgency, Urgency::OnTick);
}

#[test]
fn test_drain_urgency_scenario() {
    let mut transport = create_test_transport();
    let addr = test_addr();
    transport.send(addr, b"A", Urgency::OnTick);
    transport.send(addr, b"B", Urgency::Immediate);
    transport.send(addr, b"C", Urgency::OnTick);

    let drained = transport.drain_messages_to_send(
        &MessageFilter::UrgencyIs(Urgency::Immediate),
    );
    assert_eq!(drained.len(), 1);
    assert_eq!(drained[0].payload, &b"B"[..]);

    let rest = transport.drain_messages_to_send(&MessageFilter::All);
    assert_eq!(rest.len(), 2);
    assert_eq!(rest[0].payload, &b"A"[..]);
    assert_eq!(rest[1].payload, &b"C"[..]);
}

#[test]
fn test_send_filter_gates_scheduled_messages() {
    let mut transport = create_test_transport();
    let addr = test_addr();
    transport.send(addr, b"scheduled", Urgency::OnTick);
    transport.send(addr, b"urgent", Urgency::Immediate);

    // no network frame ran this tick: only the immediate message goes
    let drained = transport.drain_messages_to_send(&send_filter(false));
    assert_eq!(drained.len(), 1);
    assert_eq!(drained[0].payload, &b"urgent"[..]);

    // a frame ran: everything goes
    let drained = transport.drain_messages_to_send(&send_filter(true));
    assert_eq!(drained.len(), 1);
    assert_eq!(drained[0].payload, &b"scheduled"[..]);
}

#[test]
fn test_message_records_destination_and_urgency() {
    let mut transport = create_test_transport();
    let addr = PeerAddr::v4(192, 168, 0, 7, 4567);
    transport.send(addr, b"payload", Urgency::Immediate);
    let drained = transport.drain_messages_to_send(&MessageFilter::All);
    assert_eq!(drained.len(), 1);
    assert_eq!(drained[0].destination, addr);
    assert_eq!(drained[0].urgency, Urgency::Immediate);
}
