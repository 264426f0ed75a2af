use push2display2traktor::render::fps_controller::{
    FPSController, SECOND_NANOS, TARGET_FRAME_NANOS, WINDOW,
};
use std::time::Duration;

const MS: u64 = 1_000_000;

#[test]
fn target_is_a_sixtieth_of_a_second() {
    assert_eq!(
        Duration::from_secs_f64(1. / 60.).as_nanos(),
        TARGET_FRAME_NANOS as u128
    );
    assert_eq!(SECOND_NANOS, 1_000_000_000);
    assert_eq!(FPSController::default().target_duration(), 16_666_667);
}

#[test]
fn a_short_frame_is_followed_by_the_rest_of_the_target() {
    let mut fps = FPSController::default();
    fps.start_frame(1_000 * MS);
    let pause = fps.end_frame(1_004 * MS);
    assert_eq!(pause, TARGET_FRAME_NANOS - 4 * MS);
    assert_eq!(1_004 * MS + pause - 1_000 * MS, TARGET_FRAME_NANOS);
}

#[test]
fn a_frame_of_no_length_is_followed_by_the_whole_target() {
    let mut fps = FPSController::default();
    fps.start_frame(5);
    assert_eq!(fps.end_frame(5), TARGET_FRAME_NANOS);
}

#[test]
fn a_long_frame_is_followed_by_no_pause() {
    let mut fps = FPSController::default();
    fps.start_frame(0);
    assert_eq!(fps.end_frame(TARGET_FRAME_NANOS), 0);
    fps.start_frame(100 * MS);
    assert_eq!(fps.end_frame(100 * MS + TARGET_FRAME_NANOS - 1), 1);
    fps.start_frame(200 * MS);
    assert_eq!(fps.end_frame(300 * MS), 0);
}

#[test]
fn an_overrun_leaves_no_debt() {
    let mut late = FPSController::default();
    late.start_frame(0);
    assert_eq!(late.end_frame(90 * MS), 0);
    late.start_frame(90 * MS);
    let after_overrun = late.end_frame(93 * MS);

    let mut fresh = FPSController::default();
    fresh.start_frame(90 * MS);
    let without = fresh.end_frame(93 * MS);

    assert_eq!(after_overrun, without);
    assert_eq!(after_overrun, TARGET_FRAME_NANOS - 3 * MS);
}

#[test]
fn an_end_without_a_start_asks_for_the_whole_target() {
    let mut fps = FPSController::default();
    assert_eq!(fps.end_frame(123), TARGET_FRAME_NANOS);
    assert_eq!(fps.frames(), 0);
    assert_eq!(fps.avg_frame_time(), 0);
}

#[test]
fn a_clock_that_steps_back_counts_as_no_time() {
    let mut fps = FPSController::default();
    fps.start_frame(10 * MS);
    assert_eq!(fps.end_frame(9 * MS), TARGET_FRAME_NANOS);
    assert_eq!(fps.avg_frame_time(), 0);
}

#[test]
fn average_frame_time_is_rounded_down() {
    let mut fps = FPSController::default();
    assert_eq!(fps.avg_frame_time(), 0);
    fps.start_frame(0);
    assert_eq!(fps.avg_frame_time(), 0);
    fps.end_frame(10);
    assert_eq!(fps.avg_frame_time(), 10);
    fps.start_frame(100);
    fps.end_frame(111);
    assert_eq!(fps.avg_frame_time(), 10);
    fps.start_frame(200);
    fps.end_frame(212);
    assert_eq!(fps.avg_frame_time(), 11);
    fps.start_frame(300);
    assert_eq!(fps.avg_frame_time(), 11);
}

#[test]
fn frame_rate_counts_the_last_second() {
    let mut fps = FPSController::default();
    assert_eq!(fps.fps(0), 1);
    for i in 0..10u64 {
        fps.start_frame(i * 100 * MS);
        fps.end_frame(i * 100 * MS + MS);
    }
    assert_eq!(fps.fps(900 * MS), 11);
    assert_eq!(fps.fps(1_000 * MS), 11);
    assert_eq!(fps.fps(1_000 * MS + 1), 10);
    assert_eq!(fps.fps(1_500 * MS), 6);
    assert_eq!(fps.fps(1_900 * MS), 2);
    assert_eq!(fps.fps(1_900 * MS + 1), 1);
    assert_eq!(fps.fps(5_000 * MS), 1);
}

#[test]
fn the_window_holds_the_latest_frames() {
    let mut fps = FPSController::default();
    for i in 0..1000u64 {
        fps.start_frame(i * 20 * MS);
        assert!(fps.frames() <= WINDOW);
        let pause = fps.end_frame(i * 20 * MS + (i % 7) * MS);
        assert_eq!(
            pause,
            TARGET_FRAME_NANOS.saturating_sub((i % 7) * MS)
        );
    }
    assert_eq!(fps.frames(), WINDOW);
    assert_eq!(fps.frames(), 128);
    let last: Vec<u64> = (1000 - 128..1000u64).map(|i| (i % 7) * MS).collect();
    assert_eq!(
        fps.avg_frame_time(),
        last.iter().sum::<u64>() / 128
    );
    assert_eq!(fps.fps(999 * 20 * MS), 52);
}
