use subtitle_export::progress::extract_time_from_ffmpeg_line;
use subtitle_export::progress::ffprobe_duration_sec;
use subtitle_export::progress::is_progress_line;
use subtitle_export::progress::micros_to_millis;
use subtitle_export::progress::micros_to_string;
use subtitle_export::progress::parse_ffmpeg_time;
use subtitle_export::progress::progress_of_time;
use subtitle_export::progress::video_has_audio;
use subtitle_export::timeline::calculate_export_timings;

fn time(line: &str) -> Option<String> {
    extract_time_from_ffmpeg_line(line)
}

#[test]
fn time_field_is_taken_up_to_whitespace() {
    assert_eq!(
        time("frame=  100 fps= 30 q=28.0 size=1024kB time=00:00:03.33 bitrate=2519.0kbits/s"),
        Some("00:00:03.33".to_string())
    );
    assert_eq!(time("time=00:01:02.500"), Some("00:01:02.500".to_string()));
    assert_eq!(time("time="), Some(String::new()));
    assert_eq!(time("time= 5"), Some(String::new()));
    assert_eq!(time("x time=1\ttime=2"), Some("1".to_string()));
    assert_eq!(time("time=1\u{a0}2"), Some("1".to_string()));
}

#[test]
fn out_time_line_with_its_own_time_field_is_read_as_time() {
    assert_eq!(time("out_time=00:00:01.500000"), Some("00:00:01.500000".to_string()));
}

#[test]
fn out_time_ms_is_microseconds_written_as_seconds() {
    assert_eq!(time("out_time_ms=1500000 "), Some("1.500".to_string()));
    assert_eq!(time("out_time_ms=1234567\n"), Some("1.235".to_string()));
    assert_eq!(time("out_time_ms=0 x"), Some("0.000".to_string()));
    assert_eq!(time("out_time_ms=-2500000 x"), Some("-2.500".to_string()));
    assert_eq!(time("out_time_ms=+42 x"), Some("0.000".to_string()));
    assert_eq!(time("out_time_ms=1500 x"), Some("0.002".to_string())); // tie goes to even
    assert_eq!(time("out_time_ms=2500 x"), Some("0.002".to_string()));
    assert_eq!(time("out_time_ms=9223372036854775807 "), Some("9223372036854.776".to_string()));
}

#[test]
fn out_time_ms_is_read_to_the_end_of_the_line() {
    assert_eq!(time("out_time_ms=1500000"), Some("1.500".to_string()));
    assert_eq!(time("frame=3 out_time_ms=42000000"), Some("42.000".to_string()));
    assert_eq!(time("out_time_ms=-1"), Some("-0.000".to_string()));
}

#[test]
fn out_time_ms_needs_an_integer() {
    assert_eq!(time("out_time_ms="), None);
    assert_eq!(time("out_time_ms=12x"), None);
    assert_eq!(time("out_time_ms=abc "), None);
    assert_eq!(time("out_time_ms= 12 "), None);
    assert_eq!(time("out_time_ms=9223372036854775808 "), None);
    assert_eq!(time("out_time_ms=- "), None);
}

#[test]
fn other_lines_report_no_time() {
    assert_eq!(time(""), None);
    assert_eq!(time("frame=3 fps=30"), None);
    assert_eq!(time("Time=5"), None);
}

#[test]
fn progress_lines_are_recognised() {
    assert!(is_progress_line("size=1 time=00:00:01.00"));
    assert!(is_progress_line("out_time_ms=5"));
    assert!(!is_progress_line("frame=5"));
}

#[test]
fn microseconds_as_seconds() {
    assert_eq!(micros_to_string(0), "0.000");
    assert_eq!(micros_to_string(999), "0.001");
    assert_eq!(micros_to_string(499), "0.000");
    assert_eq!(micros_to_string(-499), "-0.000");
    assert_eq!(micros_to_string(61_000_500), "61.000");
    assert_eq!(micros_to_string(61_001_500), "61.002");
}

#[test]
fn times_are_read_as_seconds_or_as_clock() {
    assert_eq!(parse_ffmpeg_time("12.5"), 12_500_000);
    assert_eq!(parse_ffmpeg_time("3"), 3_000_000);
    assert_eq!(parse_ffmpeg_time("3."), 3_000_000);
    assert_eq!(parse_ffmpeg_time(".25"), 250_000);
    assert_eq!(parse_ffmpeg_time("-1.5"), -1_500_000);
    assert_eq!(parse_ffmpeg_time("0.1234567"), 123_456);
    assert_eq!(parse_ffmpeg_time("00:00:03.33"), 3_330_000);
    assert_eq!(parse_ffmpeg_time("01:02:03.5"), 3_723_500_000);
    assert_eq!(parse_ffmpeg_time("1:0:0"), 3_600_000_000);
}

#[test]
fn unreadable_times_are_zero() {
    for text in ["", ".", "N/A", "1:2", "1:2:3:4", "a:b:c", "1::3", "1 ", "1e3", "--1", "1.2.3"] {
        assert_eq!(parse_ffmpeg_time(text), 0, "{:?}", text);
    }
}

#[test]
fn huge_seconds_are_capped() {
    let cap: i128 = 1 << 64;
    assert_eq!(parse_ffmpeg_time("99999999999999999999999999"), cap * 1_000_000);
    assert_eq!(parse_ffmpeg_time("18446744073709551615.5"), (cap - 1) * 1_000_000 + 500_000);
}

#[test]
fn probe_output_is_trimmed_and_read() {
    assert_eq!(ffprobe_duration_sec(Some("12.345000\n")), 12_345_000);
    assert_eq!(ffprobe_duration_sec(Some("  3 \r\n")), 3_000_000);
    assert_eq!(ffprobe_duration_sec(Some("N/A\n")), 0);
    assert_eq!(ffprobe_duration_sec(Some("")), 0);
    assert_eq!(ffprobe_duration_sec(Some("   ")), 0);
    assert_eq!(ffprobe_duration_sec(Some("-4.0")), 0);
    assert_eq!(ffprobe_duration_sec(Some("1 2")), 0);
    assert_eq!(ffprobe_duration_sec(Some("99999999999999999999")), u64::MAX);
    assert_eq!(ffprobe_duration_sec(None), 0);
}

#[test]
fn microseconds_round_to_milliseconds() {
    assert_eq!(micros_to_millis(0), 0);
    assert_eq!(micros_to_millis(499), 0);
    assert_eq!(micros_to_millis(500), 1);
    assert_eq!(micros_to_millis(3_000_400), 3000);
    assert_eq!(micros_to_millis(u64::MAX), 18_446_744_073_709_552);
}

#[test]
fn audio_is_there_when_the_probe_lists_a_stream() {
    assert!(video_has_audio(Some(&b"1\n".to_vec())));
    assert!(!video_has_audio(Some(&Vec::new())));
    assert!(!video_has_audio(None));
}

#[test]
fn progress_is_the_share_of_the_window() {
    let t = calculate_export_timings(&[0], 30, 0, 0, Some(2000), false).unwrap();
    assert_eq!(progress_of_time(0, &t), 0);
    assert_eq!(progress_of_time(-5, &t), 0);
    assert_eq!(progress_of_time(500_000, &t), 2500);
    assert_eq!(progress_of_time(1_000_000, &t), 5000);
    assert_eq!(progress_of_time(1_999_999, &t), 9999);
    assert_eq!(progress_of_time(2_000_000, &t), 10_000);
    assert_eq!(progress_of_time(7_000_000, &t), 10_000);
    assert_eq!(progress_of_time(i128::MAX, &t), 10_000);
}
