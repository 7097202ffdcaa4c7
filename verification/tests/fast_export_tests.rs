use subtitle_export::codec::choose_best_codec;
use subtitle_export::fast_export::build_filter_complex_command;
use subtitle_export::fast_export::escape_ffconcat_path;
use subtitle_export::fast_export::ffconcat_content;
use subtitle_export::errors::InputError;
use subtitle_export::fast_export::image_list_content;
use subtitle_export::fast_export::input_layout;
use subtitle_export::fast_export::InputLayout;
use subtitle_export::fast_export::name_graph_file;
use subtitle_export::fast_export::name_image_list;
use subtitle_export::timeline::calculate_export_timings;

fn strs(v: &[&str]) -> Vec<String> {
    v.iter().map(|s| s.to_string()).collect()
}

#[test]
fn quotes_are_doubled() {
    assert_eq!(escape_ffconcat_path("/a/b.png"), "/a/b.png");
    assert_eq!(escape_ffconcat_path("it's"), "it''s");
    assert_eq!(escape_ffconcat_path("''"), "''''");
    assert_eq!(escape_ffconcat_path(""), "");
}

#[test]
fn image_list_shows_each_image_for_its_segment_and_the_fade() {
    let t = calculate_export_timings(&[0, 500], 30, 200, 0, Some(1000), false).unwrap();
    let content = ffconcat_content(&strs(&["/a/0.png", "/a/it's.png"]), &t, 200);
    assert_eq!(
        content,
        "ffconcat version 1.0\nfile '/a/0.png'\nduration 0.700000\nfile '/a/it''s.png'\nduration 1.200000\nfile '/a/it''s.png'\n"
    );
}

#[test]
fn list_and_graph_files_are_named_by_digest() {
    assert_eq!(name_image_list(&strs(&["/a/0.png", "/a/500.png"])), "images-4d560e01.ffconcat");
    assert_eq!(name_graph_file("hello"), "filter-5d41402a.ffgraph");
}

#[test]
fn command_without_background_or_audio() {
    let t = calculate_export_timings(&[0, 500, 1000], 30, 200, 0, Some(2000), false).unwrap();
    let plan = choose_best_codec(false, &vec![], false);
    let args = build_filter_complex_command(
        "/tmp/images.ffconcat",
        &vec![],
        &vec![],
        &vec![],
        &vec![],
        1280,
        720,
        30,
        &t,
        &plan,
        "/tmp/filter.ffgraph",
        None,
        "/out/final.MP4",
    );
    assert_eq!(
        args,
        strs(&[
            "-y", "-hide_banner", "-loglevel", "info", "-fflags", "+genpts",
            "-avoid_negative_ts", "make_zero", "-vsync", "cfr", "-stats", "-progress", "pipe:2",
            "-safe", "0", "-f", "concat", "-i", "/tmp/images.ffconcat", "-f", "lavfi", "-i",
            "color=c=black:s=1280x720:r=30:d=2.000000", "-filter_complex_script",
            "/tmp/filter.ffgraph", "-map", "[vout]", "-r", "30", "-g", "60", "-c:v", "libx264",
            "-preset", "ultrafast", "-pix_fmt", "yuv420p", "-crf", "22", "-tune", "zerolatency",
            "-bf", "0", "-t", "2.000000", "-movflags", "+faststart", "/out/final.MP4",
        ])
    );
}

#[test]
fn command_of_a_chunk_with_short_background_and_audio() {
    let t = calculate_export_timings(&[0, 500, 1000], 30, 200, 0, Some(2000), false).unwrap();
    let plan = choose_best_codec(true, &strs(&["h264_qsv"]), false);
    let args = build_filter_complex_command(
        "list",
        &strs(&["bg0.mp4", "bg1.mp4"]),
        &vec![1_000_000, 500_000],
        &strs(&["a.mp3"]),
        &vec![9_000_000],
        1280,
        720,
        30,
        &t,
        &plan,
        "graph",
        Some(0),
        "chunk0.mkv",
    );
    assert_eq!(
        args,
        strs(&[
            "-y", "-hide_banner", "-loglevel", "info", "-fflags", "+genpts",
            "-avoid_negative_ts", "make_zero", "-vsync", "cfr", "-stats", "-progress", "pipe:2",
            "-safe", "0", "-f", "concat", "-i", "list", "-i", "bg0.mp4", "-i", "bg1.mp4", "-i",
            "a.mp3", "-f", "lavfi", "-i", "color=c=black:s=1280x720:r=30:d=0.500000",
            "-filter_complex_script", "graph", "-map", "[vout]", "-map", "[aout]", "-r", "30",
            "-g", "60", "-c:v", "h264_qsv", "-pix_fmt", "yuv420p", "-c:a", "alac", "-ac", "2",
            "-t", "2.000000", "chunk0.mkv",
        ])
    );
}

#[test]
fn final_output_gets_aac_and_enough_background_needs_no_filler() {
    let t = calculate_export_timings(&[0], 30, 0, 0, Some(1000), false).unwrap();
    let plan = choose_best_codec(false, &vec![], false);
    let args = build_filter_complex_command(
        "list",
        &strs(&["bg.mp4"]),
        &vec![1_000_000],
        &strs(&["a.mp3"]),
        &vec![9_000_000],
        64,
        36,
        30,
        &t,
        &plan,
        "graph",
        None,
        "out.mov",
    );
    let text = args.join(" ");
    assert!(!text.contains("lavfi"));
    assert!(text.contains("-c:a aac -b:a 320k -ac 2 -t 1.000000 -movflags +faststart out.mov"));
}

#[test]
fn faststart_goes_by_the_extension() {
    let t = calculate_export_timings(&[0], 30, 0, 0, Some(1000), false).unwrap();
    let plan = choose_best_codec(false, &vec![], false);
    let with = |out: &str| {
        build_filter_complex_command(
            "l", &vec![], &vec![], &vec![], &vec![], 64, 36, 30, &t, &plan, "g", None, out,
        )
        .contains(&"+faststart".to_string())
    };
    assert!(with("a.mp4"));
    assert!(with("a.M4V"));
    assert!(with("a.mov"));
    assert!(!with("a.mkv"));
    assert!(!with("mp4"));
}

#[test]
fn inputs_are_numbered_in_order() {
    assert_eq!(
        input_layout(0, 0),
        Some(InputLayout { bg_start_idx: 1, audio_start_idx: 1, current_idx: 1 })
    );
    assert_eq!(
        input_layout(2, 3),
        Some(InputLayout { bg_start_idx: 1, audio_start_idx: 3, current_idx: 6 })
    );
    assert_eq!(input_layout(i32::MAX as usize, 0), None);
    assert_eq!(input_layout(1, (i32::MAX - 2) as usize), None);
    assert_eq!(
        input_layout(1, (i32::MAX - 3) as usize),
        Some(InputLayout { bg_start_idx: 1, audio_start_idx: 2, current_idx: i32::MAX - 1 })
    );
}

#[test]
fn image_list_wants_one_image_per_segment() {
    let t = calculate_export_timings(&[0, 500], 30, 200, 0, Some(1000), false).unwrap();
    assert_eq!(image_list_content(&vec![], &t, 200), Err(InputError::NoImages));
    assert_eq!(
        image_list_content(&strs(&["/a/0.png"]), &t, 200),
        Err(InputError::ImagesAndOnsetsDiffer)
    );
    assert_eq!(
        image_list_content(&strs(&["a", "b", "c"]), &t, 200),
        Err(InputError::ImagesAndOnsetsDiffer)
    );
    assert_eq!(
        image_list_content(&strs(&["/a/0.png", "/a/500.png"]), &t, 200),
        Ok(ffconcat_content(&strs(&["/a/0.png", "/a/500.png"]), &t, 200))
    );
}
