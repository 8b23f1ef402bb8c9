use sokoban::input::{InputThrottle, INPUT_INTERVAL_MS};
use sokoban::tile::Direction;

#[test]
fn throttle_waits_for_the_interval() {
    let mut t = InputThrottle::default();
    assert_eq!(t.interval_ms, INPUT_INTERVAL_MS);
    assert_eq!(t.on_frame(150, false, true, false, false), None);
    assert_eq!(t.elapsed_ms, 150);
    assert_eq!(t.on_frame(60, false, true, false, false), Some(Direction::Right));
    assert_eq!(t.elapsed_ms, 0);
    assert_eq!(t.on_frame(16, false, false, true, false), None);
}

#[test]
fn throttle_stays_ready_without_keys() {
    let mut t = InputThrottle::new(200);
    assert_eq!(t.on_frame(500, false, false, false, false), None);
    assert_eq!(t.elapsed_ms, 200);
    assert!(t.tick(0));
    assert_eq!(t.on_frame(1, true, false, false, true), Some(Direction::Down));
    assert_eq!(t.elapsed_ms, 0);
}

#[test]
fn throttle_counts_no_further_than_interval() {
    let mut t = InputThrottle::new(100);
    assert!(!t.tick(99));
    assert!(t.tick(u64::MAX));
    assert_eq!(t.elapsed_ms, 100);
    t.reset();
    assert_eq!(t.elapsed_ms, 0);
    let mut z = InputThrottle::new(0);
    assert_eq!(z.on_frame(0, true, false, false, false), Some(Direction::Left));
}
