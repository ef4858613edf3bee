use simple_networking::connection::NetworkResource;
use simple_networking::systems::idle_timeout_system;
use simple_networking::NetworkEvent;
use simple_networking::PeerAddr;

fn addr_a() -> PeerAddr {
    PeerAddr::v4(10, 0, 0, 1, 5000)
}

fn addr_b() -> PeerAddr {
    PeerAddr::v4(10, 0, 0, 2, 5000)
}

#[test]
fn test_touch_reports_new_connection_once() {
    let mut net = NetworkResource::new(5);
    assert!(net.touch(addr_a(), 0));
    assert!(!net.touch(addr_a(), 1));
    assert!(!net.touch(addr_a(), 2));
    assert!(net.touch(addr_b(), 2));
}

#[test]
fn test_sweep_scenario() {
    // idle timeout of five time units; a peer touched at zero survives
    // a sweep at four and is evicted, with one disconnected event, by
    // a sweep at six
    let mut net = NetworkResource::new(5);
    net.touch(addr_a(), 0);

    let events = idle_timeout_system(4, &mut net);
    assert_eq!(events.len(), 0);
    assert!(net.is_connected(addr_a()));

    let events = idle_timeout_system(6, &mut net);
    assert_eq!(events.len(), 1);
    match &events[0] {
        NetworkEvent::Disconnected(a) => assert_eq!(*a, addr_a()),
        _ => panic!("expected a disconnected event"),
    }
    assert!(!net.is_connected(addr_a()));
}

#[test]
fn test_sweep_keeps_entry_exactly_at_boundary() {
    let mut net = NetworkResource::new(5);
    net.touch(addr_a(), 0);

    let evicted = net.sweep(5);
    assert_eq!(evicted.len(), 0);
    assert!(net.is_connected(addr_a()));

    let evicted = net.sweep(6);
    assert_eq!(evicted, vec![addr_a()]);
    assert!(!net.is_connected(addr_a()));
}

#[test]
fn test_sweep_evicts_each_address_once() {
    let mut net = NetworkResource::new(3);
    net.touch(addr_a(), 0);
    net.touch(addr_b(), 0);

    let first = idle_timeout_system(10, &mut net);
    assert_eq!(first.len(), 2);

    // repeated sweeps across later ticks evict nothing further
    assert_eq!(idle_timeout_system(11, &mut net).len(), 0);
    assert_eq!(idle_timeout_system(12, &mut net).len(), 0);
}

#[test]
fn test_touch_refresh_defers_eviction() {
    let mut net = NetworkResource::new(5);
    net.touch(addr_a(), 0);
    net.touch(addr_a(), 4);
    assert_eq!(net.sweep(6).len(), 0);
    assert!(net.is_connected(addr_a()));
    assert_eq!(net.sweep(10), vec![addr_a()]);
}

#[test]
fn test_default_idle_timeout() {
    let net = NetworkResource::default();
    assert_eq!(net.idle_timeout(), 5);
    assert!(!net.is_connected(addr_a()));
}
