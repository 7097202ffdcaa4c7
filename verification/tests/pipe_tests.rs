use subtitle_export::codec::choose_best_codec;
use subtitle_export::pipe::build_decoder_args;
use subtitle_export::pipe::build_encoder_args;
use subtitle_export::pipe::fits_texture;
use subtitle_export::pipe::frame_bytes;
use subtitle_export::pipe::is_end_of_input;
use subtitle_export::timeline::calculate_export_timings;

fn strs(v: &[&str]) -> Vec<String> {
    v.iter().map(|s| s.to_string()).collect()
}

#[test]
fn frame_size_is_four_bytes_per_pixel() {
    assert_eq!(frame_bytes(1920, 1080), Some(8_294_400));
    assert_eq!(frame_bytes(0, 1080), Some(0));
    assert_eq!(frame_bytes(1, 1), Some(4));
    assert_eq!(frame_bytes(u32::MAX, u32::MAX), None);
}

#[test]
fn texture_takes_only_images_of_its_size() {
    assert!(fits_texture(2, 3, &vec![0; 24], 2, 3));
    assert!(!fits_texture(2, 3, &vec![0; 23], 2, 3));
    assert!(!fits_texture(3, 2, &vec![0; 24], 2, 3));
    assert!(!fits_texture(2, 3, &vec![0; 24], 2, 4));
}

#[test]
fn decoder_command() {
    assert_eq!(
        build_decoder_args("bg.mp4", 30),
        strs(&[
            "-i", "bg.mp4", "-f", "image2pipe", "-pix_fmt", "rgba", "-vcodec", "rawvideo", "-r",
            "30", "-",
        ])
    );
}

#[test]
fn end_of_input_is_told_apart() {
    assert!(is_end_of_input("EOF"));
    assert!(!is_end_of_input("Failed to read frame: broken pipe"));
    assert!(!is_end_of_input("eof"));
}

#[test]
fn encoder_command_without_audio() {
    let t = calculate_export_timings(&[0, 500, 1000], 30, 200, 0, Some(2000), true).unwrap();
    let plan = choose_best_codec(false, &vec![], false);
    assert_eq!(
        build_encoder_args("out.mp4", 1280, 720, 30, &plan, &vec![], &t, false),
        strs(&[
            "-y", "-f", "rawvideo", "-vcodec", "rawvideo", "-s", "1280x720", "-pix_fmt", "rgba",
            "-r", "30", "-i", "-", "-map", "0:v", "-c:v", "libx264", "-preset", "ultrafast",
            "-pix_fmt", "yuv420p", "-crf", "22", "-tune", "zerolatency", "-bf", "0", "-t",
            "2.000000", "out.mp4",
        ])
    );
}

#[test]
fn encoder_command_with_one_audio() {
    let t = calculate_export_timings(&[0], 30, 0, 1000, Some(2000), true).unwrap();
    let plan = choose_best_codec(true, &strs(&["h264_amf"]), false);
    assert_eq!(
        build_encoder_args("out.mp4", 64, 36, 30, &plan, &strs(&["a.mp3"]), &t, false),
        strs(&[
            "-y", "-f", "rawvideo", "-vcodec", "rawvideo", "-s", "64x36", "-pix_fmt", "rgba",
            "-r", "30", "-i", "-", "-i", "a.mp3", "-filter_complex",
            "[1:a]aresample=48000[aa0];[aa0]atrim=start=1.000000,asetpts=PTS-STARTPTS,atrim=end=2.000000[aout]",
            "-map", "0:v", "-map", "[aout]", "-c:v", "h264_amf", "-pix_fmt", "yuv420p", "-c:a",
            "aac", "-b:a", "320k", "-ac", "2", "-t", "2.000000", "out.mp4",
        ])
    );
}

#[test]
fn encoder_command_of_a_chunk_with_two_audios() {
    let t = calculate_export_timings(&[0], 30, 0, 0, Some(1000), true).unwrap();
    let plan = choose_best_codec(true, &strs(&["h264_amf"]), false);
    let args = build_encoder_args("c.mp4", 64, 36, 30, &plan, &strs(&["a.mp3", "b.wav"]), &t, true);
    assert_eq!(
        args,
        strs(&[
            "-y", "-f", "rawvideo", "-vcodec", "rawvideo", "-s", "64x36", "-pix_fmt", "rgba",
            "-r", "30", "-i", "-", "-i", "a.mp3", "-i", "b.wav", "-filter_complex",
            "[1:a]aresample=48000[aa0];[2:a]aresample=48000[aa1];[aa0][aa1]concat=n=2:v=0:a=1[aacat];[aacat]atrim=start=0.000000,asetpts=PTS-STARTPTS,atrim=end=1.000000[aout]",
            "-map", "0:v", "-map", "[aout]", "-c:v", "h264_amf", "-pix_fmt", "yuv420p", "-c:a",
            "alac", "-ac", "2", "-t", "1.000000", "c.mp4",
        ])
    );
}
