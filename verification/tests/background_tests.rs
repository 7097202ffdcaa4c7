use subtitle_export::background::cache_action;
use subtitle_export::background::cache_key;
use subtitle_export::background::create_video_from_image;
use subtitle_export::background::ffmpeg_preprocess_video;
use subtitle_export::background::is_image_file;
use subtitle_export::background::is_image_name;
use subtitle_export::background::key_from_digest;
use subtitle_export::background::name_image;
use subtitle_export::background::name_segment;
use subtitle_export::background::plan_segments;
use subtitle_export::background::prepared_image;
use subtitle_export::background::prepared_path;
use subtitle_export::background::preprocess_background_videos;
use subtitle_export::background::BackgroundPlan;
use subtitle_export::background::Blur;
use subtitle_export::background::CacheAction;
use subtitle_export::background::Clip;
use subtitle_export::background::SegmentPlan;
use subtitle_export::codec::choose_best_codec;

fn clip(path: &str, duration_ms: u64) -> Clip {
    Clip { path: path.to_string(), duration_ms }
}

fn strs(v: &[&str]) -> Vec<String> {
    v.iter().map(|s| s.to_string()).collect()
}

#[test]
fn image_files_are_known_by_extension_in_any_case() {
    for name in ["a.jpg", "a.JPEG", "x/y.Png", "b.bmp", "c.GIF", "d.webp", "e.tiff", "f.TIF"] {
        assert!(is_image_file(name), "{}", name);
    }
    for name in ["a.mp4", "png", "a.png.mov", "", "a.jpg ", "a.jp"] {
        assert!(!is_image_file(name), "{}", name);
    }
}

#[test]
fn image_name_check_is_exact_about_case() {
    assert!(is_image_name("a.png"));
    assert!(!is_image_name("a.PNG"));
}

#[test]
fn two_clips_spanning_the_window() {
    let plan = plan_segments(&vec![3000, 5000], 2000, Some(4000));
    assert_eq!(
        plan,
        vec![
            SegmentPlan { source_index: 0, start_within_ms: 2000, take_ms: 1000 },
            SegmentPlan { source_index: 1, start_within_ms: 0, take_ms: 3000 },
        ]
    );
}

#[test]
fn window_without_end_takes_all_that_follows() {
    let plan = plan_segments(&vec![3000, 5000, 0, 700], 3500, None);
    assert_eq!(
        plan,
        vec![
            SegmentPlan { source_index: 1, start_within_ms: 500, take_ms: 4500 },
            SegmentPlan { source_index: 3, start_within_ms: 0, take_ms: 700 },
        ]
    );
}

#[test]
fn window_inside_one_clip() {
    let plan = plan_segments(&vec![3000, 5000, 4000], 3100, Some(200));
    assert_eq!(plan, vec![SegmentPlan { source_index: 1, start_within_ms: 100, take_ms: 200 }]);
}

#[test]
fn window_before_the_playlist_prepares_nothing() {
    assert_eq!(plan_segments(&vec![3000, 5000], -4000, Some(4000)), vec![]);
    assert_eq!(plan_segments(&vec![3000, 5000], -4000, Some(1000)), vec![]);
    assert_eq!(plan_segments(&vec![3000], 100, Some(-5)), vec![]);
}

#[test]
fn window_that_starts_before_the_playlist_loses_its_lead() {
    // the second before time zero uses up budget without giving a segment
    let plan = plan_segments(&vec![3000], -1000, Some(1500));
    assert_eq!(plan, vec![SegmentPlan { source_index: 0, start_within_ms: 0, take_ms: 500 }]);
}

#[test]
fn window_after_the_playlist_prepares_nothing() {
    assert_eq!(plan_segments(&vec![3000, 5000], 8000, Some(1000)), vec![]);
    assert_eq!(plan_segments(&vec![], 0, None), vec![]);
}

#[test]
fn key_is_the_start_of_the_md5_digest_in_hex() {
    assert_eq!(cache_key("hello"), "5d41402abc");
    assert_ne!(cache_key("hello"), cache_key("hellp"));
    assert_eq!(cache_key("hello"), cache_key("hello"));
}

#[test]
fn key_from_digest_writes_lower_hex() {
    let digest: [u8; 16] =
        [0x00, 0x0f, 0xa0, 0xff, 0x12, 0x34, 0x56, 0x78, 0x9a, 0xbc, 0xde, 0xf0, 1, 2, 3, 4];
    assert_eq!(key_from_digest(&digest, 5), "000fa0ff12");
    assert_eq!(key_from_digest(&digest, 0), "");
    assert_eq!(key_from_digest(&digest, 16), "000fa0ff123456789abcdef001020304");
}

#[test]
fn segment_names_carry_key_and_format() {
    let part = SegmentPlan { source_index: 0, start_within_ms: 2000, take_ms: 1000 };
    assert_eq!(
        name_segment("clip.mp4", 1920, 1080, 30, part, None, true),
        "bg-c836723c0f-1920x1080-30.mp4"
    );
    let other = SegmentPlan { source_index: 1, start_within_ms: 0, take_ms: 3000 };
    assert_eq!(
        name_segment(
            "clip.mp4",
            1920,
            1080,
            30,
            other,
            Some(Blur { sigma_thousandths: 2500 }),
            false
        ),
        "bg-749c4ed87f-1920x1080-30.mp4"
    );
}

#[test]
fn blur_of_zero_names_like_no_blur() {
    let part = SegmentPlan { source_index: 0, start_within_ms: 2000, take_ms: 1000 };
    assert_eq!(
        name_segment("clip.mp4", 1920, 1080, 30, part, Some(Blur { sigma_thousandths: 0 }), true),
        name_segment("clip.mp4", 1920, 1080, 30, part, None, true)
    );
}

#[test]
fn image_names_carry_key_and_format() {
    assert_eq!(name_image("bg.PNG", 640, 360, 25, 2000, None, false), "img-bg-32e15f0c04-640x360-25.mp4");
    assert_eq!(
        name_image("bg.png", 640, 360, 25, 30_000, Some(Blur { sigma_thousandths: 125 }), true),
        "img-bg-9505bcd2ea-640x360-25.mp4"
    );
}

#[test]
fn single_image_is_looped_for_the_window() {
    let plan =
        preprocess_background_videos(&vec![clip("bg.PNG", 0)], 640, 360, 25, false, 0, Some(2000), None);
    match plan {
        BackgroundPlan::Image { source, duration_ms, file_name } => {
            assert_eq!(source, "bg.PNG");
            assert_eq!(duration_ms, 2000);
            assert_eq!(file_name, "img-bg-32e15f0c04-640x360-25.mp4");
        }
        _ => panic!("expected an image plan"),
    }
}

#[test]
fn single_image_without_window_is_looped_thirty_seconds() {
    let blur = Some(Blur { sigma_thousandths: 125 });
    let plan = preprocess_background_videos(&vec![clip("bg.png", 0)], 640, 360, 25, true, 0, None, blur);
    match plan {
        BackgroundPlan::Image { duration_ms, file_name, .. } => {
            assert_eq!(duration_ms, 30_000);
            assert_eq!(file_name, "img-bg-9505bcd2ea-640x360-25.mp4");
        }
        _ => panic!("expected an image plan"),
    }
}

#[test]
fn clips_are_prepared_segment_by_segment() {
    let clips = vec![clip("clip.mp4", 3000), clip("other.mp4", 5000)];
    let plan = preprocess_background_videos(&clips, 1920, 1080, 30, true, 2000, Some(4000), None);
    match plan {
        BackgroundPlan::Clips { segments } => {
            assert_eq!(segments.len(), 2);
            assert_eq!(
                segments[0].part,
                SegmentPlan { source_index: 0, start_within_ms: 2000, take_ms: 1000 }
            );
            assert_eq!(segments[0].source, "clip.mp4");
            assert_eq!(segments[0].file_name, "bg-c836723c0f-1920x1080-30.mp4");
            assert_eq!(
                segments[1].part,
                SegmentPlan { source_index: 1, start_within_ms: 0, take_ms: 3000 }
            );
            assert_eq!(segments[1].source, "other.mp4");
        }
        _ => panic!("expected clips"),
    }
}

#[test]
fn planning_twice_gives_the_same_names() {
    let clips = vec![clip("a.mp4", 3000), clip("b.mp4", 5000)];
    let names = |plan: BackgroundPlan| match plan {
        BackgroundPlan::Clips { segments } => {
            segments.into_iter().map(|s| s.file_name).collect::<Vec<_>>()
        }
        _ => panic!("expected clips"),
    };
    let first = names(preprocess_background_videos(&clips, 1280, 720, 30, true, 1000, Some(5000), None));
    let second = names(preprocess_background_videos(&clips, 1280, 720, 30, true, 1000, Some(5000), None));
    assert_eq!(first, second);
    assert_eq!(cache_action(true), CacheAction::Reuse);
    assert_eq!(cache_action(false), CacheAction::Encode);
}

#[test]
fn two_images_are_treated_as_clips() {
    let clips = vec![clip("a.png", 1000), clip("b.png", 1000)];
    match preprocess_background_videos(&clips, 640, 360, 25, false, 0, Some(500), None) {
        BackgroundPlan::Clips { segments } => assert_eq!(segments.len(), 1),
        _ => panic!("expected clips"),
    }
}

#[test]
fn failed_segment_falls_back_to_its_source() {
    let clips = vec![clip("clip.mp4", 3000)];
    let plan = preprocess_background_videos(&clips, 640, 360, 25, false, 0, Some(500), None);
    let segment = match plan {
        BackgroundPlan::Clips { mut segments } => segments.remove(0),
        _ => panic!("expected clips"),
    };
    assert_eq!(prepared_path(&segment, "/tmp/cache/x.mp4", true), "/tmp/cache/x.mp4");
    assert_eq!(prepared_path(&segment, "/tmp/cache/x.mp4", false), "clip.mp4");
    assert_eq!(prepared_image("/tmp/cache/i.mp4", true), strs(&["/tmp/cache/i.mp4"]));
    assert_eq!(prepared_image("/tmp/cache/i.mp4", false), Vec::<String>::new());
}

#[test]
fn preprocess_command_with_software_codec() {
    let plan = choose_best_codec(false, &vec![], false);
    let args = ffmpeg_preprocess_video(
        "in.mp4",
        "out.mp4",
        1920,
        1080,
        30,
        &plan,
        Some(2000),
        Some(1500),
        Some(Blur { sigma_thousandths: 2500 }),
    );
    assert_eq!(
        args,
        strs(&[
            "-ss", "2.000", "-y", "-hide_banner", "-loglevel", "error", "-fflags", "+genpts",
            "-avoid_negative_ts", "make_zero", "-vsync", "cfr", "-i", "in.mp4", "-t", "1.500",
            "-an", "-vf",
            "scale=w=1920:h=1080:force_original_aspect_ratio=decrease,pad=1920:1080:(ow-iw)/2:(oh-ih)/2:color=black,gblur=sigma=2.5,fps=30,setsar=1",
            "-pix_fmt", "yuv420p", "-c:v", "libx264", "-g", "60", "-preset", "ultrafast",
            "-pix_fmt", "yuv420p", "-crf", "22", "-tune", "zerolatency", "-bf", "0", "out.mp4",
        ])
    );
}

#[test]
fn preprocess_command_without_seek_cut_blur_or_preset() {
    let plan = choose_best_codec(true, &strs(&["h264_qsv"]), false);
    let args = ffmpeg_preprocess_video("in.mp4", "out.mp4", 640, 360, 25, &plan, None, None, None);
    assert_eq!(
        args,
        strs(&[
            "-y", "-hide_banner", "-loglevel", "error", "-fflags", "+genpts",
            "-avoid_negative_ts", "make_zero", "-vsync", "cfr", "-i", "in.mp4", "-an", "-vf",
            "scale=w=640:h=360:force_original_aspect_ratio=decrease,pad=640:360:(ow-iw)/2:(oh-ih)/2:color=black,fps=25,setsar=1",
            "-pix_fmt", "yuv420p", "-c:v", "h264_qsv", "-g", "50", "-pix_fmt", "yuv420p",
            "out.mp4",
        ])
    );
}

#[test]
fn image_command_with_software_codec() {
    let plan = choose_best_codec(false, &vec![], false);
    let args = create_video_from_image("bg.png", "out.mp4", 1280, 720, 30, 2500, &plan, None);
    assert_eq!(
        args,
        strs(&[
            "-y", "-hide_banner", "-loglevel", "info", "-fflags", "+genpts",
            "-avoid_negative_ts", "make_zero", "-vsync", "cfr", "-loop", "1", "-i", "bg.png",
            "-vf",
            "scale=1280:720:force_original_aspect_ratio=increase,crop=1280:720:(in_w-1280)/2:(in_h-720)/2",
            "-c:v", "libx264", "-r", "30", "-g", "60", "-t", "2.500000", "-preset", "ultrafast",
            "-pix_fmt", "yuv420p", "-crf", "22", "-tune", "zerolatency", "-bf", "0", "-crf",
            "23", "out.mp4",
        ])
    );
}

#[test]
fn image_command_with_nvidia_codec_and_blur() {
    let plan = choose_best_codec(true, &strs(&["h264_nvenc"]), true);
    let args = create_video_from_image(
        "bg.png",
        "out.mp4",
        640,
        360,
        25,
        30_000,
        &plan,
        Some(Blur { sigma_thousandths: 10_000 }),
    );
    assert_eq!(
        args,
        strs(&[
            "-y", "-hide_banner", "-loglevel", "info", "-fflags", "+genpts",
            "-avoid_negative_ts", "make_zero", "-vsync", "cfr", "-loop", "1", "-i", "bg.png",
            "-vf",
            "scale=640:360:force_original_aspect_ratio=increase,crop=640:360:(in_w-640)/2:(in_h-360)/2,gblur=sigma=10",
            "-c:v", "h264_nvenc", "-r", "25", "-g", "50", "-t", "30.000000", "-preset", "p4",
            "-pix_fmt", "yuv420p", "-bf", "0", "-cq", "23", "out.mp4",
        ])
    );
}

#[test]
fn image_command_with_other_hardware_codec_has_no_quality_flag() {
    let plan = choose_best_codec(true, &strs(&["h264_amf"]), false);
    let args = create_video_from_image("bg.png", "o.mp4", 64, 36, 5, 1000, &plan, None);
    assert!(!args.contains(&"-crf".to_string()));
    assert!(!args.contains(&"-cq".to_string()));
    assert!(!args.contains(&"-preset".to_string()));
}
