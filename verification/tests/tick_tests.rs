use voice_bridge::tick::{deadline_of, scheduled_ticks};
use voice_bridge::TICK_MS;

#[test]
fn deadlines_lie_on_the_fixed_grid() {
    assert_eq!(deadline_of(0), Some(0));
    assert_eq!(deadline_of(1), Some(TICK_MS));
    assert_eq!(deadline_of(500), Some(10000));
    assert_eq!(deadline_of(u64::MAX), None);
}

#[test]
fn ten_second_windows_hold_five_hundred_deadlines() {
    for start in [0u64, 1, 19, 20, 21, 9999, 10007, 123_456_789] {
        assert_eq!(
            scheduled_ticks(start + 10000) - scheduled_ticks(start),
            500,
            "window starting at {start}"
        );
    }
}

#[test]
fn tick_counting_is_exact_at_the_edges() {
    assert_eq!(scheduled_ticks(0), 0);
    assert_eq!(scheduled_ticks(1), 1);
    assert_eq!(scheduled_ticks(TICK_MS), 1);
    assert_eq!(scheduled_ticks(TICK_MS + 1), 2);
}
