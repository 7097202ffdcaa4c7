use subtitle_export::errors::InputError;
use subtitle_export::subtitles::file_extension;
use subtitle_export::subtitles::frame_file;
use subtitle_export::subtitles::is_png_extension;
use subtitle_export::subtitles::list_subtitle_frames;
use subtitle_export::subtitles::onsets_of;
use subtitle_export::subtitles::parse_onset;
use subtitle_export::subtitles::pick_subtitle_frames;
use subtitle_export::subtitles::sort_subtitle_frames;
use subtitle_export::subtitles::subtitle_frame;
use subtitle_export::subtitles::SubtitleFrame;

fn strs(v: &[&str]) -> Vec<String> {
    v.iter().map(|s| s.to_string()).collect()
}

fn frame(onset_ms: i32, file_name: &str) -> SubtitleFrame {
    SubtitleFrame { onset_ms, file_name: file_name.to_string() }
}

#[test]
fn directory_is_sorted_by_onset() {
    let frames = list_subtitle_frames(&strs(&["0.png", "100.png", "50.png"])).unwrap();
    assert_eq!(onsets_of(&frames), vec![0, 50, 100]);
    assert_eq!(frames, vec![frame(0, "0.png"), frame(50, "50.png"), frame(100, "100.png")]);
}

#[test]
fn other_extensions_are_ignored() {
    let names = strs(&["20.PNG", "10.jpg", "notes.txt", "5.png.bak", "png", ".png", "7.Png"]);
    let frames = list_subtitle_frames(&names).unwrap();
    assert_eq!(frames, vec![frame(7, "7.Png"), frame(20, "20.PNG")]);
}

#[test]
fn directory_without_frames_is_rejected() {
    assert_eq!(list_subtitle_frames(&strs(&["a.jpg", "b.txt"])).err(), Some(InputError::NoSubtitles));
    assert_eq!(list_subtitle_frames(&vec![]).err(), Some(InputError::NoSubtitles));
}

#[test]
fn onsets_are_read_from_stems() {
    assert_eq!(parse_onset("1500.png"), 1500);
    assert_eq!(parse_onset("-20.png"), -20);
    assert_eq!(parse_onset("+7.png"), 7);
    assert_eq!(parse_onset("007.png"), 7);
    assert_eq!(parse_onset("2147483647.png"), i32::MAX);
    assert_eq!(parse_onset("-2147483648.png"), i32::MIN);
    assert_eq!(parse_onset("2147483648.png"), 0);
    assert_eq!(parse_onset("abc.png"), 0);
    assert_eq!(parse_onset("1.5.png"), 0);
    assert_eq!(parse_onset(".png"), 0);
    assert_eq!(parse_onset("12"), 12);
    assert_eq!(parse_onset(""), 0);
}

#[test]
fn extensions_follow_the_last_dot() {
    assert_eq!(file_extension("a.png"), Some("png".to_string()));
    assert_eq!(file_extension("a.b.PNG"), Some("PNG".to_string()));
    assert_eq!(file_extension("a."), Some(String::new()));
    assert_eq!(file_extension(".hidden"), None);
    assert_eq!(file_extension("plain"), None);
    assert_eq!(file_extension(""), None);
    assert!(is_png_extension("png"));
    assert!(!is_png_extension("PNG"));
}

#[test]
fn frames_are_made_of_png_names_only() {
    assert_eq!(subtitle_frame("300.png"), Some(frame(300, "300.png")));
    assert_eq!(subtitle_frame("x.PNG"), Some(frame(0, "x.PNG")));
    assert_eq!(subtitle_frame("300.jpg"), None);
}

#[test]
fn picking_keeps_the_order_of_the_names() {
    let picked = pick_subtitle_frames(&strs(&["9.png", "a.txt", "3.png"]));
    assert_eq!(picked, vec![frame(9, "9.png"), frame(3, "3.png")]);
}

#[test]
fn sorting_keeps_every_frame_and_the_order_of_equals() {
    let frames = vec![frame(5, "5.png"), frame(1, "1.png"), frame(5, "05.png"), frame(-3, "-3.png")];
    let sorted = sort_subtitle_frames(&frames);
    assert_eq!(
        sorted,
        vec![frame(-3, "-3.png"), frame(1, "1.png"), frame(5, "5.png"), frame(5, "05.png")]
    );
    assert_eq!(sort_subtitle_frames(&vec![]), vec![]);
}

#[test]
fn subtitle_image_is_the_file_of_its_frame() {
    let frames = list_subtitle_frames(&strs(&["100.png", "05.png"])).unwrap();
    assert_eq!(frame_file(&frames, 0), Some("05.png".to_string()));
    assert_eq!(frame_file(&frames, 1), Some("100.png".to_string()));
    assert_eq!(frame_file(&frames, 2), None);
}
