use subtitle_export::errors::InputError;
use subtitle_export::timeline::calculate_export_timings;
use subtitle_export::timeline::snap_to_ticks;

#[test]
fn timings_of_three_subtitles_in_a_window() {
    let t = calculate_export_timings(&[0, 500, 1000], 30, 200, 0, Some(2000), true).unwrap();
    assert_eq!(t.fps(), 30);
    assert_eq!(t.len(), 3);
    assert_eq!(t.durations(), vec![15_000u128, 15_000, 30_000]);
    assert_eq!(t.duration_of(2), 30_000);
    assert_eq!(t.start(), 0);
    assert_eq!(t.duration(), 60_000);
    assert_eq!(t.total_frames(), 60);
}

#[test]
fn timings_do_not_depend_on_fidelity() {
    let a = calculate_export_timings(&[0, 500, 1000], 30, 200, 0, Some(2000), true).unwrap();
    let b = calculate_export_timings(&[0, 500, 1000], 30, 200, 0, Some(2000), false).unwrap();
    assert_eq!(a.durations(), b.durations());
    assert_eq!(a.start(), b.start());
    assert_eq!(a.duration(), b.duration());
}

#[test]
fn timings_without_window_end_one_tail_after_last_onset() {
    // tail = max(3000, 1000); end = snap(1000 + 3000) = 120 frames at 30 fps
    let t = calculate_export_timings(&[0, 1000], 30, 3000, 0, None, false).unwrap();
    assert_eq!(t.durations(), vec![30_000u128, 90_000]);
    assert_eq!(t.duration(), 120_000);
}

#[test]
fn tail_is_one_second_without_fade() {
    let t = calculate_export_timings(&[0], 25, 0, 0, None, false).unwrap();
    assert_eq!(t.durations(), vec![25_000u128]);
    assert_eq!(t.duration(), 25_000);
}

#[test]
fn window_is_snapped_to_the_frame_grid() {
    // 1010 ms at 30 fps = 30.3 frames -> 30; 1010 + 990 = 2000 ms -> 60 frames
    let t = calculate_export_timings(&[0], 30, 0, 1010, Some(990), false).unwrap();
    assert_eq!(t.start(), 30_000);
    assert_eq!(t.duration(), 30_000);
}

#[test]
fn window_is_at_least_one_frame() {
    let t = calculate_export_timings(&[0], 30, 0, 0, Some(0), false).unwrap();
    assert_eq!(t.duration(), 1000);
    assert_eq!(t.total_frames(), 1);
    let u = calculate_export_timings(&[0], 30, 0, 500, Some(-200), false).unwrap();
    assert_eq!(u.duration(), 1000);
}

#[test]
fn segment_in_one_frame_lasts_one_millisecond() {
    // 0 ms and 1 ms snap to frame 0 at 30 fps: the segment is lifted to 1 ms = 30 ticks
    let t = calculate_export_timings(&[0, 1], 30, 0, 0, None, false).unwrap();
    assert_eq!(t.durations(), vec![30u128, 30_000]);
}

#[test]
fn durations_sum_to_the_snapped_span() {
    let onsets = [40, 500, 1234, 9000];
    let t = calculate_export_timings(&onsets, 24, 500, 0, None, false).unwrap();
    let sum: u128 = t.durations().iter().sum();
    let span = snap_to_ticks(9000 + 1000, 24) - snap_to_ticks(40, 24);
    assert_eq!(sum as i128, span);
}

#[test]
fn timings_reject_zero_fps() {
    assert_eq!(
        calculate_export_timings(&[0], 0, 0, 0, None, false).err(),
        Some(InputError::ZeroFps)
    );
    assert_eq!(
        calculate_export_timings(&[], -5, 0, 0, None, false).err(),
        Some(InputError::ZeroFps)
    );
}

#[test]
fn timings_reject_empty_onsets() {
    assert_eq!(
        calculate_export_timings(&[], 30, 0, 0, Some(1000), false).err(),
        Some(InputError::NoSubtitles)
    );
}

#[test]
fn timings_reject_duplicate_and_unordered_onsets() {
    assert_eq!(
        calculate_export_timings(&[0, 500, 500], 30, 0, 0, None, false).err(),
        Some(InputError::OnsetsNotIncreasing)
    );
    assert_eq!(
        calculate_export_timings(&[0, 700, 500], 30, 0, 0, None, false).err(),
        Some(InputError::OnsetsNotIncreasing)
    );
}

#[test]
fn snap_rounds_to_nearest_frame() {
    assert_eq!(snap_to_ticks(0, 30), 0);
    assert_eq!(snap_to_ticks(500, 30), 15_000);
    assert_eq!(snap_to_ticks(16, 30), 0); // 0.48 frames
    assert_eq!(snap_to_ticks(17, 30), 1000); // 0.51 frames
    assert_eq!(snap_to_ticks(50, 10), 1000); // 0.5 frames: away from zero
    assert_eq!(snap_to_ticks(-50, 10), -1000);
    assert_eq!(snap_to_ticks(-49, 10), 0);
}

#[test]
fn window_length_in_microseconds() {
    let t = calculate_export_timings(&[0], 30, 0, 0, Some(2000), false).unwrap();
    assert_eq!(t.duration_micros(), 2_000_000);
    let one = calculate_export_timings(&[0], 30, 0, 0, Some(0), false).unwrap();
    assert_eq!(one.duration_micros(), 33_333);
}
