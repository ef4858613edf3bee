use simple_networking::clock::NetworkClock;
use simple_networking::heartbeat::HeartbeatTimer;
use simple_networking::intervals_compatible;

#[test]
fn test_clock_scenario() {
    // a per-frame duration of one thirty-fifth of a second, in
    // nanoseconds, fed three frames' worth of delta in one update
    let per_frame: u64 = 1_000_000_000 / 35;
    let mut clock = NetworkClock::new(per_frame);

    clock.update(3 * per_frame);
    assert_eq!(clock.frames_to_run(), 3);
    assert_eq!(clock.total_frames, 3);
    assert!(clock.elapsed < per_frame);
}

#[test]
fn test_clock_accumulates_partial_frames() {
    let mut clock = NetworkClock::new(10);
    clock.update(7);
    assert_eq!(clock.frames_to_run(), 0);
    assert_eq!(clock.elapsed, 7);

    clock.update(7);
    assert_eq!(clock.frames_to_run(), 1);
    assert_eq!(clock.elapsed, 4);
    assert_eq!(clock.total_frames, 1);
}

#[test]
fn test_should_send_now_tracks_frames_this_tick() {
    let mut clock = NetworkClock::new(10);
    clock.update(5);
    clock.frames_to_run();
    assert!(!clock.should_send_now());

    clock.update(15);
    clock.frames_to_run();
    assert!(clock.should_send_now());

    // a new tick starts a fresh count
    clock.update(0);
    assert!(!clock.should_send_now());
}

#[test]
fn test_heartbeat_timer_keeps_overshoot() {
    let mut timer = HeartbeatTimer::new(4);
    assert!(!timer.tick(3));
    assert!(timer.tick(3));
    // two units past the interval carry over
    assert_eq!(timer.elapsed, 2);
    assert!(timer.tick(2));
    assert_eq!(timer.elapsed, 0);
}

#[test]
fn test_intervals_compatible() {
    // an idle timeout must be at least twice the heartbeat interval
    assert!(intervals_compatible(5, 2));
    assert!(intervals_compatible(4, 2));
    assert!(!intervals_compatible(3, 2));
    assert!(!intervals_compatible(0, 1));
}
