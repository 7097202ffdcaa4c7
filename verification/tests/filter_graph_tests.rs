use subtitle_export::filter_graph::build_filter_complex_content;
use subtitle_export::filter_graph::build_stream_labels;
use subtitle_export::filter_graph::has_audio;
use subtitle_export::filter_graph::is_background_missing;
use subtitle_export::filter_graph::is_background_short;
use subtitle_export::filter_graph::sum_durations;
use subtitle_export::timeline::calculate_export_timings;
use subtitle_export::timeline::ExportTimings;

const SOURCE: &str = "[0:v]format=rgba,scale=w=1280:h=720:force_original_aspect_ratio=decrease,pad=1280:720:(ow-iw)/2:(oh-ih)/2:color=black@0,fps=30,setpts=PTS-STARTPTS,setsar=1,format=yuva420p";

fn timings() -> ExportTimings {
    calculate_export_timings(&[0, 500, 1000], 30, 200, 0, Some(2000), false).unwrap()
}

fn overlay() -> Vec<String> {
    vec![
        format!("{},split=3[b0][b1][b2]", SOURCE),
        "[b0]trim=start=0.000000:end=0.500000,setpts=PTS-STARTPTS,fade=t=in:st=0:d=0.200000:alpha=1,fade=t=out:st=0.300000:d=0.200000:alpha=1[s0]".to_string(),
        "[b1]trim=start=0.500000:end=1.000000,setpts=PTS-STARTPTS,fade=t=in:st=0:d=0.200000:alpha=1,fade=t=out:st=0.300000:d=0.200000:alpha=1[s1]".to_string(),
        "[b2]trim=start=1.000000:end=2.000000,setpts=PTS-STARTPTS,fade=t=in:st=0:d=0.200000:alpha=1,fade=t=out:st=0.800000:d=0.200000:alpha=1[s2]".to_string(),
        "[s0][s1][s2]concat=n=3:v=1:a=0[comp_overlay]".to_string(),
    ]
}

#[test]
fn graph_without_background_or_audio() {
    let ctx = build_filter_complex_content(
        1280, 720, 30, 200, &timings(), &vec![], &vec![], 1, 1, 1, false, false,
    );
    let mut lines = overlay();
    lines.push("[1:v][comp_overlay]overlay=shortest=1:x=0:y=0,format=yuv420p[vout]".to_string());
    assert_eq!(ctx.filter_complex, lines.join(";"));
    assert!(!ctx.have_audio);
    assert_eq!(ctx.current_idx, 2);
    assert_eq!(ctx.bg_start_idx, 1);
    assert_eq!(ctx.audio_start_idx, 1);
    assert_eq!(ctx.total_bg_us, 0);
}

#[test]
fn graph_with_one_full_background_and_one_audio() {
    let ctx = build_filter_complex_content(
        1280, 720, 30, 200, &timings(), &vec![2_000_000], &vec![5_000_000], 2, 1, 3, false, false,
    );
    let mut lines = overlay();
    lines.push("[1:v]setpts=PTS-STARTPTS,setsar=1[bgtrim]".to_string());
    lines.push("[bgtrim][comp_overlay]overlay=shortest=1:x=0:y=0,format=yuv420p[vout]".to_string());
    lines.push("[2:a]aresample=48000[aa0]".to_string());
    lines.push("[aa0]atrim=start=0.000000,asetpts=PTS-STARTPTS,atrim=end=2.000000[aout]".to_string());
    assert_eq!(ctx.filter_complex, lines.join(";"));
    assert!(ctx.have_audio);
    assert_eq!(ctx.current_idx, 3);
    assert_eq!(ctx.total_bg_us, 2_000_000);
}

#[test]
fn graph_with_short_background_and_two_audios() {
    let ctx = build_filter_complex_content(
        1280,
        720,
        30,
        200,
        &timings(),
        &vec![1_000_000, 500_000],
        &vec![1_000_000, 1_000_000],
        3,
        1,
        5,
        false,
        false,
    );
    let mut lines = overlay();
    lines.push("[1:v][2:v]concat=n=2:v=1:a=0[bgcat]".to_string());
    lines.push("[bgcat]setpts=PTS-STARTPTS,setsar=1[bgtrim]".to_string());
    lines.push("[5:v]setsar=1[colorpad]".to_string());
    lines.push("[bgtrim][colorpad]concat=n=2:v=1:a=0[bg]".to_string());
    lines.push("[bg][comp_overlay]overlay=shortest=1:x=0:y=0,format=yuv420p[vout]".to_string());
    lines.push("[3:a]aresample=48000[aa0]".to_string());
    lines.push("[4:a]aresample=48000[aa1]".to_string());
    lines.push("[aa0][aa1]concat=n=2:v=0:a=1[aacat]".to_string());
    lines.push("[aacat]atrim=start=0.000000,asetpts=PTS-STARTPTS,atrim=end=2.000000[aout]".to_string());
    assert_eq!(ctx.filter_complex, lines.join(";"));
    assert!(ctx.have_audio);
    assert_eq!(ctx.current_idx, 6);
    assert_eq!(ctx.total_bg_us, 1_500_000);
}

#[test]
fn linear_graph_for_streamed_high_fidelity() {
    let ctx = build_filter_complex_content(
        1280, 720, 30, 200, &timings(), &vec![], &vec![], 1, 1, 1, true, true,
    );
    assert_eq!(
        ctx.filter_complex,
        format!(
            "{}[lin_overlay];[1:v][lin_overlay]overlay=shortest=1:x=0:y=0,format=yuv420p[vout]",
            SOURCE
        )
    );
    let fast = build_filter_complex_content(
        1280, 720, 30, 200, &timings(), &vec![], &vec![], 1, 1, 1, true, false,
    );
    assert!(fast.filter_complex.contains("comp_overlay"));
}

#[test]
fn fade_is_cut_to_half_the_segment() {
    // segments of 0.5 s with a fade of 400 ms: both fades last 0.25 s
    let t = calculate_export_timings(&[0, 500], 30, 400, 0, Some(1000), false).unwrap();
    let ctx = build_filter_complex_content(64, 36, 30, 400, &t, &vec![], &vec![], 1, 1, 1, false, false);
    assert!(ctx.filter_complex.contains(
        "[b0]trim=start=0.000000:end=0.500000,setpts=PTS-STARTPTS,fade=t=in:st=0:d=0.250000:alpha=1,fade=t=out:st=0.250000:d=0.250000:alpha=1[s0]"
    ));
    // the tail segment lasts 1 s, so its fade stays at 0.4 s
    assert!(ctx.filter_complex.contains(
        "[b1]trim=start=0.500000:end=1.500000,setpts=PTS-STARTPTS,fade=t=in:st=0:d=0.400000:alpha=1,fade=t=out:st=0.600000:d=0.400000:alpha=1[s1]"
    ));
}

#[test]
fn negative_fade_counts_as_none() {
    let t = calculate_export_timings(&[0], 30, -50, 0, Some(1000), false).unwrap();
    let ctx = build_filter_complex_content(64, 36, 30, -50, &t, &vec![], &vec![], 1, 1, 1, false, false);
    assert!(ctx.filter_complex.contains("fade=t=in:st=0:d=0.000000:alpha=1,fade=t=out:st=1.000000:d=0.000000:alpha=1"));
}

#[test]
fn times_are_rounded_to_microseconds() {
    // one frame at 30 fps is 0.0333... s; 1 ms onset distance is lifted to 0.001 s
    let t = calculate_export_timings(&[0, 33], 30, 0, 0, Some(1000), false).unwrap();
    let ctx = build_filter_complex_content(64, 36, 30, 0, &t, &vec![], &vec![], 1, 1, 1, false, false);
    assert!(ctx.filter_complex.contains("[b0]trim=start=0.000000:end=0.033333,"));
    assert!(ctx.filter_complex.contains("[b1]trim=start=0.033333:end=1.033333,"));
}

#[test]
fn background_is_missing_short_or_enough() {
    let t = timings();
    assert!(is_background_missing(&vec![]));
    assert!(is_background_missing(&vec![1]));
    assert!(is_background_missing(&vec![0, 1]));
    assert!(!is_background_missing(&vec![1, 1]));
    assert!(!is_background_short(&vec![], &t));
    assert!(is_background_short(&vec![1_999_998], &t));
    assert!(!is_background_short(&vec![1_999_999], &t));
    assert!(!is_background_short(&vec![2_000_000], &t));
    assert!(!is_background_short(&vec![u64::MAX, u64::MAX], &t));
}

#[test]
fn audio_is_present_when_the_window_starts_before_its_end() {
    let t = calculate_export_timings(&[0], 30, 0, 1000, Some(1000), false).unwrap();
    assert!(!has_audio(&vec![], &t));
    assert!(!has_audio(&vec![999_999], &t));
    assert!(!has_audio(&vec![1_000_000], &t));
    assert!(has_audio(&vec![1_000_001], &t));
    assert!(has_audio(&vec![500_000, 600_000], &t));
    assert!(has_audio(&vec![u64::MAX, u64::MAX], &t));
    let early = calculate_export_timings(&[0], 30, 0, -1000, Some(1000), false).unwrap();
    assert!(has_audio(&vec![0], &early));
    let origin = calculate_export_timings(&[0], 30, 0, 0, Some(1000), false).unwrap();
    assert!(has_audio(&vec![1], &origin));
    assert!(!has_audio(&vec![0], &origin));
}

#[test]
fn labels_and_sums() {
    assert_eq!(build_stream_labels("aa", 3), "[aa0][aa1][aa2]");
    assert_eq!(build_stream_labels("b", 0), "");
    assert_eq!(sum_durations(&vec![1, 2, 3]), 6);
    assert_eq!(sum_durations(&vec![u64::MAX, u64::MAX]), 2 * (u64::MAX as u128));
}
