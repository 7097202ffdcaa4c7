//! The pipes of the direct compositor: the command that decodes the
//! background into raw frames, the command that encodes raw frames with the
//! audio mix, and the size of a frame.

use crate::codec::preset_args;
use crate::codec::push_preset;
use crate::codec::EncoderPlan;
use crate::codec::PlanModel;
use crate::fast_export::audio_codec_args;
use crate::fast_export::input_args;
use crate::fast_export::push_audio_codec;
use crate::fast_export::push_inputs;
use crate::filter_graph::audio_chain;
use crate::filter_graph::build_audio_chain;
use crate::text::decimal_digits;
use crate::text::extend_texts;
use crate::text::join;
use crate::text::join_strings;
use crate::text::natural_to_string;
use crate::text::push_natural;
use crate::text::push_string;
use crate::text::push_text;
use crate::text::same_text;
use crate::text::seconds_text;
use crate::text::seconds_to_string;
use crate::text::texts;
use crate::timeline::ExportTimings;
use crate::timeline::TimingsModel;
use vstd::prelude::*;

verus! {

/// The size of one raw RGBA frame in bytes, where it fits in memory.
pub fn frame_bytes(width: u32, height: u32) -> (size: Option<usize>)
    ensures
        match size {
            Some(n) => n == width * height * 4,
            None => width * height * 4 > usize::MAX,
        },
{
    assert(0 <= width * height <= 0xFFFF_FFFF * 0xFFFF_FFFF) by (nonlinear_arith)
        requires
            0 <= width <= 0xFFFF_FFFF,
            0 <= height <= 0xFFFF_FFFF,
    ;
    let size: u128 = (width as u128) * (height as u128) * 4;
    if size > usize::MAX as u128 {
        None
    } else {
        Some(size as usize)
    }
}

/// Whether a decoded subtitle can go to a device texture of the given size as
/// it is: its size is the texture's, and it holds four bytes per pixel.
pub fn fits_texture(image_width: u32, image_height: u32, pixels: &Vec<u8>, width: u32, height: u32) -> (fits:
    bool)
    ensures
        fits == (image_width == width && image_height == height && pixels@.len() == width * height
            * 4),
{
    if image_width != width || image_height != height {
        return false;
    }
    let len = pixels.len();
    match frame_bytes(width, height) {
        Some(n) => len == n,
        None => false,
    }
}

/// The arguments of the command that decodes a background into raw RGBA
/// frames at the given rate on its standard output.
pub open spec fn decoder_args(path: Seq<char>, fps: int) -> Seq<Seq<char>> {
    seq![
        "-i"@,
        path,
        "-f"@,
        "image2pipe"@,
        "-pix_fmt"@,
        "rgba"@,
        "-vcodec"@,
        "rawvideo"@,
        "-r"@,
        decimal_digits(fps as nat),
        "-"@,
    ]
}

/// Builds the arguments of the decoder.
pub fn build_decoder_args(path: &str, fps: u32) -> (args: Vec<String>)
    ensures
        texts(args@) == decoder_args(path@, fps as int),
{
    let mut args: Vec<String> = Vec::new();
    assert(texts(args@) =~= Seq::<Seq<char>>::empty());
    push_text(&mut args, "-i");
    push_text(&mut args, path);
    push_text(&mut args, "-f");
    push_text(&mut args, "image2pipe");
    push_text(&mut args, "-pix_fmt");
    push_text(&mut args, "rgba");
    push_text(&mut args, "-vcodec");
    push_text(&mut args, "rawvideo");
    push_text(&mut args, "-r");
    push_string(&mut args, natural_to_string(fps as u128));
    push_text(&mut args, "-");
    assert(texts(args@) =~= decoder_args(path@, fps as int));
    args
}

/// Whether a failed read of the decoder's output is the end of its input.
pub fn is_end_of_input(message: &str) -> (end: bool)
    ensures
        end == (message@ == "EOF"@),
{
    same_text(message, "EOF")
}

/// The arguments that hand the audio graph to the encoder and map its
/// outputs: without audio only the piped video is mapped.
pub open spec fn encoder_map_args(audio_count: nat, timings: TimingsModel) -> Seq<Seq<char>> {
    if audio_count > 0 {
        seq![
            "-filter_complex"@,
            join(audio_chain(audio_count, timings, 1), ";"@),
            "-map"@,
            "0:v"@,
            "-map"@,
            "[aout]"@,
        ]
    } else {
        seq!["-map"@, "0:v"@]
    }
}

/// The arguments of the command that encodes raw RGBA frames from its
/// standard input and mixes in the audio files.
///
/// The piped video is input 0 and the audio files follow from input 1. The
/// audio is resampled, joined and trimmed to the window; it is encoded as
/// lossless ALAC for a chunk and as AAC at 320 kb/s otherwise.
pub open spec fn encoder_args(
    path: Seq<char>,
    w: int,
    h: int,
    fps: int,
    plan: PlanModel,
    audio_paths: Seq<Seq<char>>,
    timings: TimingsModel,
    chunk: bool,
) -> Seq<Seq<char>> {
    seq![
        "-y"@,
        "-f"@,
        "rawvideo"@,
        "-vcodec"@,
        "rawvideo"@,
        "-s"@,
        decimal_digits(w as nat) + "x"@ + decimal_digits(h as nat),
        "-pix_fmt"@,
        "rgba"@,
        "-r"@,
        decimal_digits(fps as nat),
        "-i"@,
        "-"@,
    ] + input_args(audio_paths) + encoder_map_args(audio_paths.len(), timings) + seq![
        "-c:v"@,
        plan.codec,
    ] + preset_args(plan.preset) + plan.params + audio_codec_args(audio_paths.len() > 0, chunk)
        + seq!["-t"@, seconds_text(timings.duration, 1000 * timings.fps), path]
}

/// Builds the arguments of the encoder.
pub fn build_encoder_args(
    path: &str,
    w: u32,
    h: u32,
    fps: u32,
    plan: &EncoderPlan,
    audio_paths: &Vec<String>,
    timings: &ExportTimings,
    chunk: bool,
) -> (args: Vec<String>)
    ensures
        texts(args@) == encoder_args(
            path@,
            w as int,
            h as int,
            fps as int,
            plan@,
            texts(audio_paths@),
            timings@,
            chunk,
        ),
{
    let rate = timings.fps();
    let mut args: Vec<String> = Vec::new();
    assert(texts(args@) =~= Seq::<Seq<char>>::empty());
    push_text(&mut args, "-y");
    push_text(&mut args, "-f");
    push_text(&mut args, "rawvideo");
    push_text(&mut args, "-vcodec");
    push_text(&mut args, "rawvideo");
    push_text(&mut args, "-s");
    let mut size = natural_to_string(w as u128);
    size.append("x");
    push_natural(&mut size, h as u128);
    push_string(&mut args, size);
    push_text(&mut args, "-pix_fmt");
    push_text(&mut args, "rgba");
    push_text(&mut args, "-r");
    push_string(&mut args, natural_to_string(fps as u128));
    push_text(&mut args, "-i");
    push_text(&mut args, "-");
    push_inputs(&mut args, audio_paths);
    let ghost before_map = texts(args@);
    if audio_paths.len() > 0 {
        let chain = build_audio_chain(audio_paths.len(), timings, 1);
        push_text(&mut args, "-filter_complex");
        push_string(&mut args, join_strings(&chain, ";"));
        push_text(&mut args, "-map");
        push_text(&mut args, "0:v");
        push_text(&mut args, "-map");
        push_text(&mut args, "[aout]");
    } else {
        push_text(&mut args, "-map");
        push_text(&mut args, "0:v");
    }
    assert(texts(args@) =~= before_map + encoder_map_args(audio_paths@.len(), timings@));
    push_text(&mut args, "-c:v");
    push_text(&mut args, plan.codec.as_str());
    push_preset(&mut args, plan);
    extend_texts(&mut args, &plan.params);
    push_audio_codec(&mut args, audio_paths.len() > 0, chunk);
    push_text(&mut args, "-t");
    push_string(
        &mut args,
        seconds_to_string(timings.duration() as i128, 1000 * (rate as u64)),
    );
    push_text(&mut args, path);
    assert(texts(audio_paths@).len() == audio_paths@.len());
    assert(texts(args@) =~= encoder_args(
        path@,
        w as int,
        h as int,
        fps as int,
        plan@,
        texts(audio_paths@),
        timings@,
        chunk,
    ));
    args
}

} // verus!
