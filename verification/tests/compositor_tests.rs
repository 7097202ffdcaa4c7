use subtitle_export::compositor::active_subtitle;
use subtitle_export::compositor::fade_alpha;
use subtitle_export::compositor::frame_time;
use subtitle_export::compositor::Alpha;
use subtitle_export::compositor::LoopStep;
use subtitle_export::compositor::StreamState;
use subtitle_export::timeline::calculate_export_timings;

const ONSETS: [i32; 3] = [0, 500, 1000];

#[test]
fn frame_times_round_to_milliseconds() {
    assert_eq!(frame_time(0, 30, 0), 0);
    assert_eq!(frame_time(1, 30, 0), 33);
    assert_eq!(frame_time(5, 30, 0), 167);
    assert_eq!(frame_time(6, 30, 0), 200);
    assert_eq!(frame_time(30, 30, 250), 1250);
    assert_eq!(frame_time(1, 2000, 0), 1); // 0.5 ms rounds up
}

#[test]
fn active_subtitle_is_the_one_whose_span_holds_the_time() {
    assert_eq!(active_subtitle(&ONSETS, -1), None);
    assert_eq!(active_subtitle(&ONSETS, 0), Some(0));
    assert_eq!(active_subtitle(&ONSETS, 499), Some(0));
    assert_eq!(active_subtitle(&ONSETS, 500), Some(1));
    assert_eq!(active_subtitle(&ONSETS, 999), Some(1));
    assert_eq!(active_subtitle(&ONSETS, 1000), Some(2));
    assert_eq!(active_subtitle(&ONSETS, 1_000_000), Some(2));
    assert_eq!(active_subtitle(&[], 0), None);
}

#[test]
fn alpha_ramps_in_holds_and_ramps_out() {
    assert_eq!(fade_alpha(&ONSETS, 0, 0, 200), Alpha { num: 0, den: 200 });
    assert_eq!(fade_alpha(&ONSETS, 0, 167, 200), Alpha { num: 167, den: 200 });
    assert_eq!(fade_alpha(&ONSETS, 0, 200, 200), Alpha { num: 1, den: 1 });
    assert_eq!(fade_alpha(&ONSETS, 0, 300, 200), Alpha { num: 1, den: 1 });
    assert_eq!(fade_alpha(&ONSETS, 0, 301, 200), Alpha { num: 199, den: 200 });
    assert_eq!(fade_alpha(&ONSETS, 0, 499, 200), Alpha { num: 1, den: 200 });
    // the last subtitle lasts without end and never fades out
    assert_eq!(fade_alpha(&ONSETS, 2, 1100, 200), Alpha { num: 100, den: 200 });
    assert_eq!(fade_alpha(&ONSETS, 2, 2900, 200), Alpha { num: 1, den: 1 });
    assert_eq!(fade_alpha(&ONSETS, 2, 3000, 200), Alpha { num: 1, den: 1 });
    assert_eq!(fade_alpha(&ONSETS, 2, 1_000_000_000, 200), Alpha { num: 1, den: 1 });
}

#[test]
fn single_subtitle_with_long_fade_reaches_full_opacity() {
    // one subtitle at 0 ms, fade 1500 ms, 30 fps: frame 45 is the first fully opaque one
    assert_eq!(frame_time(44, 30, 0), 1467);
    assert_eq!(fade_alpha(&[0], 0, 1467, 1500), Alpha { num: 1467, den: 1500 });
    assert_eq!(frame_time(45, 30, 0), 1500);
    assert_eq!(fade_alpha(&[0], 0, 1500, 1500), Alpha { num: 1, den: 1 });
    assert_eq!(fade_alpha(&[0], 0, 3000, 200), Alpha { num: 1, den: 1 });
}

#[test]
fn alpha_outside_the_span_is_zero() {
    assert_eq!(fade_alpha(&ONSETS, 1, 400, 200), Alpha { num: 0, den: 200 });
    assert_eq!(fade_alpha(&ONSETS, 0, 500, 200), Alpha { num: 0, den: 200 });
    assert_eq!(fade_alpha(&ONSETS, 0, 900, 200), Alpha { num: 0, den: 200 });
    assert_eq!(fade_alpha(&ONSETS, 2, -50, 200), Alpha { num: 0, den: 200 });
}

#[test]
fn alpha_without_fade_is_opaque() {
    assert_eq!(fade_alpha(&ONSETS, 0, 0, 0), Alpha { num: 1, den: 1 });
    assert_eq!(fade_alpha(&ONSETS, 1, 999, -5), Alpha { num: 1, den: 1 });
}

#[test]
fn onset_at_window_start_fades_in_from_zero() {
    // onset 250 = start of the window; fade 200 ms at 30 fps reaches 1 at frame 6
    let onsets = [250, 5000];
    let mut state = StreamState::new(20);
    let mut alphas = Vec::new();
    for _ in 0..8 {
        match state.next_step(&onsets, 30, 200, 250) {
            LoopStep::Compose(plan) => {
                alphas.push(plan.alpha);
                state.frame_written(&plan);
            }
            other => panic!("ended early: {:?}", other),
        }
    }
    assert_eq!(alphas[0], Alpha { num: 0, den: 200 });
    assert_eq!(alphas[5], Alpha { num: 167, den: 200 });
    assert_eq!(alphas[6], Alpha { num: 1, den: 1 });
    assert_eq!(alphas[7], Alpha { num: 1, den: 1 });
}

#[test]
fn single_image_scenario_writes_sixty_frames() {
    let timings = calculate_export_timings(&ONSETS, 30, 200, 0, Some(2000), true).unwrap();
    let total = timings.total_frames() as u64;
    assert_eq!(total, 60);
    let mut state = StreamState::new(total);
    let mut plans = Vec::new();
    loop {
        match state.next_step(&ONSETS, 30, 200, 0) {
            LoopStep::Compose(plan) => {
                plans.push(plan);
                state.frame_written(&plan);
            }
            LoopStep::Finish => break,
            LoopStep::Cancelled => panic!("not cancelled"),
        }
    }
    assert_eq!(plans.len(), 60);
    assert_eq!(state.written, 60);
    // subtitle 0 ramps from 0 to 1 over frames 0 to 5 and is opaque at frame 6
    let ramp: Vec<i128> = plans[0..6].iter().map(|p| p.alpha.num).collect();
    assert_eq!(ramp, vec![0, 33, 67, 100, 133, 167]);
    assert!(plans[0..6].iter().all(|p| p.subtitle == Some(0) && p.alpha.den == 200));
    assert_eq!(plans[6].alpha, Alpha { num: 1, den: 1 });
    // subtitle 2 is shown from frame 30 onward
    assert_eq!(plans[29].subtitle, Some(1));
    assert!(plans[30..].iter().all(|p| p.subtitle == Some(2)));
    // images are loaded when the subtitle changes, and only then
    let reloads: Vec<u64> =
        plans.iter().filter(|p| p.reload_subtitle).map(|p| p.frame_idx).collect();
    assert_eq!(reloads, vec![0, 15, 30]);
    // progress is reported every 30 frames
    let reports: Vec<(u64, u64)> =
        plans.iter().filter_map(|p| p.progress.map(|s| (p.frame_idx, s))).collect();
    assert_eq!(reports, vec![(0, 0), (30, 5000)]);
}

#[test]
fn frames_before_the_first_onset_have_no_subtitle() {
    let state = StreamState::new(10);
    match state.next_step(&[400], 30, 100, 0) {
        LoopStep::Compose(plan) => {
            assert_eq!(plan.subtitle, None);
            assert!(!plan.reload_subtitle);
            assert_eq!(plan.alpha, Alpha { num: 1, den: 1 });
            assert_eq!(plan.time_ms, 0);
        }
        other => panic!("ended early: {:?}", other),
    }
}

#[test]
fn cancel_stops_the_loop_at_the_next_frame() {
    let mut state = StreamState::new(10);
    match state.step_unless_cancelled(false, &ONSETS, 30, 200, 0) {
        LoopStep::Compose(plan) => state.frame_written(&plan),
        other => panic!("unexpected {:?}", other),
    }
    assert_eq!(state.step_unless_cancelled(true, &ONSETS, 30, 200, 0), LoopStep::Cancelled);
    assert_eq!(state.written, 1);
    let done = StreamState::new(0);
    assert_eq!(done.step_unless_cancelled(false, &ONSETS, 30, 200, 0), LoopStep::Finish);
    assert_eq!(done.step_unless_cancelled(true, &ONSETS, 30, 200, 0), LoopStep::Cancelled);
}

#[test]
fn loop_of_no_frames_finishes_at_once() {
    let state = StreamState::new(0);
    assert_eq!(state.next_step(&ONSETS, 30, 200, 0), LoopStep::Finish);
}
