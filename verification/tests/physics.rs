use biomass::constants::{FPS, MAX_TICKS_PER_FRAME};
use biomass::physics::Timestep;

#[test]
fn frame_of_one_tick_fires_one_tick() {
    let mut clock = Timestep::new(FPS, MAX_TICKS_PER_FRAME);
    // A sixtieth of a second, rounded up to a whole nanosecond.
    assert_eq!(clock.advance(16_666_667), 1);
}

#[test]
fn short_frames_add_up_to_a_tick() {
    let mut clock = Timestep::new(60, 5);
    // A sixtieth of a second, rounded down: not yet a tick.
    assert_eq!(clock.advance(16_666_666), 0);
    assert_eq!(clock.advance(1), 1);
    assert_eq!(clock.advance(8_000_000), 0);
    assert_eq!(clock.advance(8_000_000), 0);
    assert_eq!(clock.advance(8_000_000), 1);
}

#[test]
fn long_frame_fires_each_tick_that_is_due() {
    let mut clock = Timestep::new(60, 5);
    assert_eq!(clock.advance(50_000_000), 3);
    // Nothing was lost: 50 ms and 50 ms make six ticks.
    assert_eq!(clock.advance(50_000_000), 3);
}

#[test]
fn ticks_do_not_drift_over_a_second_of_uneven_frames() {
    let mut clock = Timestep::new(60, 5);
    let frames = [7_000_000u64, 21_000_000, 13_000_000, 9_000_000];
    let mut ticks = 0;
    for frame in 0..80 {
        ticks += clock.advance(frames[frame % 4]);
    }
    // 80 frames of 12.5 ms on average make one second.
    assert_eq!(ticks, 60);
}

#[test]
fn stalled_frame_fires_no_more_than_the_limit_and_drops_the_rest() {
    let mut clock = Timestep::new(60, 5);
    assert_eq!(clock.advance(1_000_000_000), 5);
    // The 55 ticks that were not run are not owed any more.
    assert_eq!(clock.advance(0), 0);
    assert_eq!(clock.advance(16_666_667), 1);
}

#[test]
fn stalled_frame_keeps_what_is_left_of_a_tick() {
    let mut clock = Timestep::new(60, 5);
    // One second and a hundred and twentieth: half a tick is left.
    assert_eq!(clock.advance(1_008_333_334), 5);
    assert_eq!(clock.advance(8_333_333), 1);
}

#[test]
fn frame_at_the_limit_drops_nothing() {
    let mut clock = Timestep::new(60, 5);
    assert_eq!(clock.advance(83_333_334), 5);
    assert_eq!(clock.advance(16_666_666), 1);
}

#[test]
fn clock_that_may_fire_nothing_fires_nothing() {
    let mut clock = Timestep::new(60, 0);
    assert_eq!(clock.advance(1_000_000_000), 0);
}

#[test]
fn clock_without_ticks_fires_nothing() {
    let mut clock = Timestep::new(0, 5);
    assert_eq!(clock.advance(u64::MAX), 0);
}

#[test]
fn longest_frame_at_the_highest_rate_is_accounted_for() {
    let mut clock = Timestep::new(u64::MAX, u32::MAX);
    assert_eq!(clock.advance(u64::MAX), u32::MAX);
    let mut slow = Timestep::new(1, u32::MAX);
    assert_eq!(slow.advance(u64::MAX), u32::MAX);
    let mut exact = Timestep::new(1, u32::MAX);
    assert_eq!(exact.advance(4_294_967_294_999_999_999), 4_294_967_294);
}
