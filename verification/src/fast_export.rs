//! The declarative pipeline: the list of subtitle images handed to the
//! toolchain, the command that runs the filter graph, and the record written
//! when that command fails.

use crate::background::text_key;
use crate::background::key_of_text;
use crate::codec::preset_args;
use crate::errors::InputError;
use crate::codec::push_preset;
use crate::codec::EncoderPlan;
use crate::codec::PlanModel;
use crate::filter_graph::audio_present;
use crate::filter_graph::background_missing;
use crate::filter_graph::background_short;
use crate::filter_graph::has_audio;
use crate::filter_graph::is_background_missing;
use crate::filter_graph::is_background_short;
use crate::filter_graph::AMPLE_US;
use crate::filter_graph::sum_durations;
use crate::filter_graph::sum_of;
use crate::filter_graph::fade_ticks;
use crate::text::chars_of;
use crate::text::decimal;
use crate::text::ends_with;
use crate::text::extend_texts;
use crate::text::has_suffix;
use crate::text::integer_to_string;
use crate::text::join;
use crate::text::join_strings;
use crate::text::lowercase;
use crate::text::push_integer;
use crate::text::push_string;
use crate::text::push_text;
use crate::text::seconds_text;
use crate::text::seconds_to_string;
use crate::text::texts;
use crate::text::to_lowercase;
use crate::timeline::ExportTimings;
use crate::timeline::TimingsModel;
use vstd::prelude::*;

verus! {

/// A path as it stands between single quotes in a file list: each single
/// quote is doubled.
pub open spec fn escaped_path(path: Seq<char>) -> Seq<char>
    decreases path.len(),
{
    if path.len() == 0 {
        Seq::empty()
    } else if path.last() == '\'' {
        escaped_path(path.drop_last()).push('\'').push('\'')
    } else {
        escaped_path(path.drop_last()).push(path.last())
    }
}

/// Escapes a path for a file list.
pub fn escape_ffconcat_path(path: &str) -> (escaped: String)
    ensures
        escaped@ == escaped_path(path@),
{
    let chars = chars_of(path);
    let mut escaped = String::new();
    let mut i: usize = 0;
    while i < chars.len()
        invariant
            i <= chars.len(),
            escaped@ == escaped_path(chars@.take(i as int)),
        decreases chars.len() - i,
    {
        assert(chars@.take(i + 1).drop_last() =~= chars@.take(i as int));
        if chars[i] == '\'' {
            escaped.push('\'');
            escaped.push('\'');
        } else {
            escaped.push(chars[i]);
        }
        i += 1;
    }
    assert(chars@.take(chars.len() as int) =~= chars@);
    escaped
}

/// The line of a file list that names a file.
pub open spec fn file_line(path: Seq<char>) -> Seq<char> {
    "file '"@ + escaped_path(path) + "'\n"@
}

/// Appends [`file_line`].
fn push_file_line(content: &mut String, path: &str)
    ensures
        final(content)@ == old(content)@ + file_line(path@),
{
    content.append("file '");
    content.append(escape_ffconcat_path(path).as_str());
    content.append("'\n");
    assert(content@ =~= old(content)@ + file_line(path@));
}

/// The entry of subtitle image `i` in the list: the file, shown for its
/// segment's duration and the fade that overlaps the next one.
pub open spec fn image_entry(paths: Seq<Seq<char>>, timings: TimingsModel, fade_ms: int, i: int) -> Seq<
    char,
> {
    file_line(paths[i]) + "duration "@ + seconds_text(
        timings.durations[i] + fade_ticks(fade_ms, timings.fps),
        1000 * timings.fps,
    ) + "\n"@
}

/// The entries of the first `upto` subtitle images.
pub open spec fn image_entries(paths: Seq<Seq<char>>, timings: TimingsModel, fade_ms: int, upto: int) -> Seq<
    char,
>
    decreases upto,
{
    if upto <= 0 {
        Seq::empty()
    } else {
        image_entries(paths, timings, fade_ms, upto - 1) + image_entry(
            paths,
            timings,
            fade_ms,
            upto - 1,
        )
    }
}

/// The list of subtitle images: a header, one entry per image, and the last
/// image once more, which ends the list.
pub open spec fn image_list(paths: Seq<Seq<char>>, timings: TimingsModel, fade_ms: int) -> Seq<char> {
    "ffconcat version 1.0\n"@ + image_entries(paths, timings, fade_ms, paths.len() as int)
        + file_line(paths.last())
}

/// Writes the list of subtitle images.
pub fn ffconcat_content(image_paths: &Vec<String>, timings: &ExportTimings, fade_ms: i32) -> (content:
    String)
    requires
        image_paths@.len() == timings@.durations.len(),
    ensures
        content@ == image_list(texts(image_paths@), timings@, fade_ms as int),
{
    let fps = timings.fps();
    let n = image_paths.len();
    let fade: u128 = if fade_ms > 0 {
        assert(0 <= fade_ms * fps <= 0x8000_0000 * 0x8000_0000) by (nonlinear_arith)
            requires
                0 < fade_ms <= 0x8000_0000,
                0 < fps <= 0x8000_0000,
        ;
        (fade_ms as u128) * (fps as u128)
    } else {
        0
    };
    let mut content = String::from_str("ffconcat version 1.0\n");
    let ghost head = content@;
    let mut i: usize = 0;
    while i < n
        invariant
            i <= n,
            n == image_paths@.len(),
            n == timings@.durations.len(),
            fps == timings@.fps,
            fade == fade_ticks(fade_ms as int, fps as int),
            fade <= 0x4000_0000_0000_0000,
            ExportTimings::well_formed(timings@),
            content@ == head + image_entries(texts(image_paths@), timings@, fade_ms as int, i as int),
        decreases n - i,
    {
        let ghost before = content@;
        push_file_line(&mut content, image_paths[i].as_str());
        content.append("duration ");
        assert(timings@.durations[i as int] <= crate::timeline::MAX_SEGMENT_TICKS);
        let shown = timings.duration_of(i) + fade;
        content.append(seconds_to_string(shown as i128, 1000 * (fps as u64)).as_str());
        content.append("\n");
        assert(content@ =~= before + image_entry(
            texts(image_paths@),
            timings@,
            fade_ms as int,
            i as int,
        ));
        assert(content@ =~= head + image_entries(
            texts(image_paths@),
            timings@,
            fade_ms as int,
            i + 1,
        ));
        i += 1;
    }
    push_file_line(&mut content, image_paths[n - 1].as_str());
    assert(texts(image_paths@).last() == image_paths@[n - 1]@);
    content
}

/// Why no list can be written of these images for this timeline, if so.
pub open spec fn image_list_error(images: int, segments: int) -> Option<InputError> {
    if images == 0 {
        Some(InputError::NoImages)
    } else if images != segments {
        Some(InputError::ImagesAndOnsetsDiffer)
    } else {
        None
    }
}

/// Writes the list of subtitle images for a timeline. An empty list of images
/// is rejected, and so is one that does not hold one image per segment.
pub fn image_list_content(image_paths: &Vec<String>, timings: &ExportTimings, fade_ms: i32) -> (r:
    Result<String, InputError>)
    ensures
        match r {
            Ok(content) => image_list_error(
                image_paths@.len() as int,
                timings@.durations.len() as int,
            ) is None && content@ == image_list(texts(image_paths@), timings@, fade_ms as int),
            Err(e) => image_list_error(image_paths@.len() as int, timings@.durations.len() as int)
                == Some(e),
        },
{
    if image_paths.len() == 0 {
        Err(InputError::NoImages)
    } else if image_paths.len() != timings.len() {
        Err(InputError::ImagesAndOnsetsDiffer)
    } else {
        Ok(ffconcat_content(image_paths, timings, fade_ms))
    }
}

/// The name of the file that holds the list of subtitle images: it carries
/// eight hexadecimal digits of the digest of the paths joined by `|`.
pub open spec fn image_list_name(paths: Seq<Seq<char>>) -> Seq<char> {
    "images-"@ + text_key(join(paths, "|"@), 4) + ".ffconcat"@
}

/// Names the file that holds the list of subtitle images.
pub fn name_image_list(image_paths: &Vec<String>) -> (name: String)
    ensures
        name@ == image_list_name(texts(image_paths@)),
{
    let joined = join_strings(image_paths, "|");
    let mut name = String::from_str("images-");
    name.append(key_of_text(joined.as_str(), 4).as_str());
    name.append(".ffconcat");
    name
}

/// The name of the file that holds a filter graph: it carries eight
/// hexadecimal digits of the graph's digest.
pub open spec fn graph_file_name(graph: Seq<char>) -> Seq<char> {
    "filter-"@ + text_key(graph, 4) + ".ffgraph"@
}

/// Names the file that holds a filter graph.
pub fn name_graph_file(graph: &str) -> (name: String)
    ensures
        name@ == graph_file_name(graph@),
{
    let mut name = String::from_str("filter-");
    name.append(key_of_text(graph, 4).as_str());
    name.append(".ffgraph");
    name
}

/// The arguments that name input files, `-i` before each.
pub open spec fn input_args(paths: Seq<Seq<char>>) -> Seq<Seq<char>>
    decreases paths.len(),
{
    if paths.len() == 0 {
        Seq::empty()
    } else {
        input_args(paths.drop_last()) + seq!["-i"@, paths.last()]
    }
}

/// Appends [`input_args`].
pub fn push_inputs(args: &mut Vec<String>, paths: &Vec<String>)
    ensures
        texts(final(args)@) == texts(old(args)@) + input_args(texts(paths@)),
{
    let mut i: usize = 0;
    assert(texts(paths@).take(0) =~= Seq::<Seq<char>>::empty());
    assert(texts(args@) =~= texts(old(args)@) + input_args(texts(paths@).take(0)));
    while i < paths.len()
        invariant
            i <= paths.len(),
            texts(args@) == texts(old(args)@) + input_args(texts(paths@).take(i as int)),
        decreases paths.len() - i,
    {
        push_text(args, "-i");
        push_text(args, paths[i].as_str());
        proof {
            let now = texts(paths@).take(i + 1);
            assert(now.drop_last() =~= texts(paths@).take(i as int));
            assert(now.last() == paths@[i as int]@);
            assert(texts(args@) =~= texts(old(args)@) + input_args(now));
        }
        i += 1;
    }
    assert(texts(paths@).take(paths.len() as int) =~= texts(paths@));
}

/// A generated black source of the frame size and rate that lasts
/// `num / den` seconds.
pub open spec fn black_source(w: int, h: int, fps: int, num: int, den: int) -> Seq<char> {
    "color=c=black:s="@ + decimal(w) + "x"@ + decimal(h) + ":r="@ + decimal(fps) + ":d="@
        + seconds_text(num, den)
}

/// The arguments of the generated black input: as long as the window where
/// the background is missing, as long as what the background lacks where it
/// is short, and absent otherwise.
pub open spec fn black_input_args(w: int, h: int, fps: int, bg_us: Seq<u64>, timings: TimingsModel) -> Seq<
    Seq<char>,
> {
    if background_missing(bg_us) {
        seq![
            "-f"@,
            "lavfi"@,
            "-i"@,
            black_source(w, h, fps, timings.duration, 1000 * timings.fps),
        ]
    } else if background_short(bg_us, timings) {
        seq![
            "-f"@,
            "lavfi"@,
            "-i"@,
            black_source(
                w,
                h,
                fps,
                timings.duration * 1000 - sum_of(bg_us) * timings.fps,
                1_000_000 * timings.fps,
            ),
        ]
    } else {
        Seq::empty()
    }
}

/// Builds [`black_source`].
fn build_black_source(w: i32, h: i32, fps: i32, num: u128, den: u64) -> (source: String)
    requires
        den > 0,
        num <= crate::text::SECONDS_LIMIT,
    ensures
        source@ == black_source(w as int, h as int, fps as int, num as int, den as int),
{
    let mut source = String::from_str("color=c=black:s=");
    push_integer(&mut source, w as i64);
    source.append("x");
    push_integer(&mut source, h as i64);
    source.append(":r=");
    push_integer(&mut source, fps as i64);
    source.append(":d=");
    source.append(seconds_to_string(num as i128, den).as_str());
    source
}

/// Appends [`black_input_args`].
fn push_black_input(args: &mut Vec<String>, w: i32, h: i32, fps: i32, bg_us: &Vec<u64>, timings: &ExportTimings)
    ensures
        texts(final(args)@) == texts(old(args)@) + black_input_args(
            w as int,
            h as int,
            fps as int,
            bg_us@,
            timings@,
        ),
{
    let rate = timings.fps();
    let duration = timings.duration();
    if is_background_missing(bg_us) {
        push_text(args, "-f");
        push_text(args, "lavfi");
        push_text(args, "-i");
        push_string(args, build_black_source(w, h, fps, duration, 1000 * (rate as u64)));
    } else if is_background_short(bg_us, timings) {
        let sum = sum_durations(bg_us);
        assert(0 <= sum * rate <= AMPLE_US * 0x8000_0000) by (nonlinear_arith)
            requires
                0 < rate <= 0x8000_0000,
                0 <= sum < AMPLE_US,
        ;
        assert((sum + 1) * rate == sum * rate + rate) by (nonlinear_arith);
        let lacking = duration * 1000 - sum * (rate as u128);
        push_text(args, "-f");
        push_text(args, "lavfi");
        push_text(args, "-i");
        push_string(args, build_black_source(w, h, fps, lacking, 1_000_000 * (rate as u64)));
    }
    assert(texts(args@) =~= texts(old(args)@) + black_input_args(
        w as int,
        h as int,
        fps as int,
        bg_us@,
        timings@,
    ));
}

/// The arguments that choose the audio codec: none without audio, lossless
/// ALAC for a chunk that is stitched later, AAC at 320 kb/s for a final
/// output; stereo in both cases.
pub open spec fn audio_codec_args(have_audio: bool, chunk: bool) -> Seq<Seq<char>> {
    if !have_audio {
        Seq::empty()
    } else if chunk {
        seq!["-c:a"@, "alac"@, "-ac"@, "2"@]
    } else {
        seq!["-c:a"@, "aac"@, "-b:a"@, "320k"@, "-ac"@, "2"@]
    }
}

/// Appends [`audio_codec_args`].
pub fn push_audio_codec(args: &mut Vec<String>, have_audio: bool, chunk: bool)
    ensures
        texts(final(args)@) == texts(old(args)@) + audio_codec_args(have_audio, chunk),
{
    if have_audio {
        push_text(args, "-c:a");
        if chunk {
            push_text(args, "alac");
        } else {
            push_text(args, "aac");
            push_text(args, "-b:a");
            push_text(args, "320k");
        }
        push_text(args, "-ac");
        push_text(args, "2");
    }
    assert(texts(args@) =~= texts(old(args)@) + audio_codec_args(have_audio, chunk));
}

/// Whether a lower-cased output path names a container of the MP4 family.
pub open spec fn is_mp4_family(lowered: Seq<char>) -> bool {
    ends_with(lowered, ".mp4"@) || ends_with(lowered, ".mov"@) || ends_with(lowered, ".m4v"@)
}

/// The arguments that move the index of an MP4-family container to the front
/// of the file: none for other containers.
pub open spec fn faststart_args(lowered: Seq<char>) -> Seq<Seq<char>> {
    if is_mp4_family(lowered) {
        seq!["-movflags"@, "+faststart"@]
    } else {
        Seq::empty()
    }
}

/// Appends [`faststart_args`] for an output path that is already in lower
/// case.
pub fn push_faststart(args: &mut Vec<String>, lowered: &str)
    ensures
        texts(final(args)@) == texts(old(args)@) + faststart_args(lowered@),
{
    let name = chars_of(lowered);
    let mp4 = chars_of(".mp4");
    let mov = chars_of(".mov");
    let m4v = chars_of(".m4v");
    if has_suffix(&name, &mp4) || has_suffix(&name, &mov) || has_suffix(&name, &m4v) {
        push_text(args, "-movflags");
        push_text(args, "+faststart");
    }
    assert(texts(args@) =~= texts(old(args)@) + faststart_args(lowered@));
}

/// The arguments that map the graph's audio output: none without audio.
pub open spec fn audio_map_args(have_audio: bool) -> Seq<Seq<char>> {
    if have_audio {
        seq!["-map"@, "[aout]"@]
    } else {
        Seq::empty()
    }
}

/// The arguments that every run of the filter graph starts with, up to the
/// list of subtitle images as input 0.
pub open spec fn command_head(list_path: Seq<char>) -> Seq<Seq<char>> {
    seq![
        "-y"@,
        "-hide_banner"@,
        "-loglevel"@,
        "info"@,
        "-fflags"@,
        "+genpts"@,
        "-avoid_negative_ts"@,
        "make_zero"@,
        "-vsync"@,
        "cfr"@,
        "-stats"@,
        "-progress"@,
        "pipe:2"@,
        "-safe"@,
        "0"@,
        "-f"@,
        "concat"@,
        "-i"@,
        list_path,
    ]
}

/// Appends [`command_head`].
fn push_command_head(args: &mut Vec<String>, list_path: &str)
    ensures
        texts(final(args)@) == texts(old(args)@) + command_head(list_path@),
{
    push_text(args, "-y");
    push_text(args, "-hide_banner");
    push_text(args, "-loglevel");
    push_text(args, "info");
    push_text(args, "-fflags");
    push_text(args, "+genpts");
    push_text(args, "-avoid_negative_ts");
    push_text(args, "make_zero");
    push_text(args, "-vsync");
    push_text(args, "cfr");
    push_text(args, "-stats");
    push_text(args, "-progress");
    push_text(args, "pipe:2");
    push_text(args, "-safe");
    push_text(args, "0");
    push_text(args, "-f");
    push_text(args, "concat");
    push_text(args, "-i");
    push_text(args, list_path);
    assert(texts(args@) =~= texts(old(args)@) + command_head(list_path@));
}

/// The arguments that hand over the graph and map its outputs.
pub open spec fn graph_args(graph_path: Seq<char>, have_audio: bool) -> Seq<Seq<char>> {
    seq!["-filter_complex_script"@, graph_path, "-map"@, "[vout]"@] + audio_map_args(have_audio)
}

/// Appends [`graph_args`].
fn push_graph_args(args: &mut Vec<String>, graph_path: &str, have_audio: bool)
    ensures
        texts(final(args)@) == texts(old(args)@) + graph_args(graph_path@, have_audio),
{
    push_text(args, "-filter_complex_script");
    push_text(args, graph_path);
    push_text(args, "-map");
    push_text(args, "[vout]");
    if have_audio {
        push_text(args, "-map");
        push_text(args, "[aout]");
    }
    assert(texts(args@) =~= texts(old(args)@) + graph_args(graph_path@, have_audio));
}

/// The arguments that set the frame rate, the distance of key frames, which
/// is two seconds, and the video codec with its preset and parameters.
pub open spec fn video_codec_args(fps: int, plan: PlanModel) -> Seq<Seq<char>> {
    seq!["-r"@, decimal(fps), "-g"@, decimal(2 * fps), "-c:v"@, plan.codec] + preset_args(
        plan.preset,
    ) + plan.params
}

/// Appends [`video_codec_args`].
fn push_video_codec(args: &mut Vec<String>, fps: i32, plan: &EncoderPlan)
    ensures
        texts(final(args)@) == texts(old(args)@) + video_codec_args(fps as int, plan@),
{
    push_text(args, "-r");
    push_string(args, integer_to_string(fps as i64));
    push_text(args, "-g");
    push_string(args, integer_to_string(2 * (fps as i64)));
    push_text(args, "-c:v");
    push_text(args, plan.codec.as_str());
    push_preset(args, plan);
    extend_texts(args, &plan.params);
    assert(texts(args@) =~= texts(old(args)@) + video_codec_args(fps as int, plan@));
}

/// The arguments that end the command: the length of the output, the flag
/// for MP4-family containers, and the output path.
pub open spec fn output_args(timings: TimingsModel, out_path: Seq<char>) -> Seq<Seq<char>> {
    seq!["-t"@, seconds_text(timings.duration, 1000 * timings.fps)] + faststart_args(
        lowercase(out_path),
    ) + seq![out_path]
}

/// Appends [`output_args`].
fn push_output_args(args: &mut Vec<String>, timings: &ExportTimings, out_path: &str)
    ensures
        texts(final(args)@) == texts(old(args)@) + output_args(timings@, out_path@),
{
    let rate = timings.fps();
    push_text(args, "-t");
    push_string(args, seconds_to_string(timings.duration() as i128, 1000 * (rate as u64)));
    let lowered = to_lowercase(out_path);
    push_faststart(args, lowered.as_str());
    push_text(args, out_path);
    assert(texts(args@) =~= texts(old(args)@) + output_args(timings@, out_path@));
}

/// The arguments of the command that runs the filter graph.
///
/// The inputs come in the order in which the graph numbers them: the list of
/// subtitle images, the prepared background segments, the audio files, and
/// the generated black input where the graph needs one.
pub open spec fn filter_command(
    list_path: Seq<char>,
    pre_videos: Seq<Seq<char>>,
    bg_us: Seq<u64>,
    audio_paths: Seq<Seq<char>>,
    audio_us: Seq<u64>,
    w: int,
    h: int,
    fps: int,
    timings: TimingsModel,
    plan: PlanModel,
    graph_path: Seq<char>,
    chunk: bool,
    out_path: Seq<char>,
) -> Seq<Seq<char>> {
    let have_audio = audio_present(audio_us, timings);
    command_head(list_path) + input_args(pre_videos) + input_args(audio_paths) + black_input_args(
        w,
        h,
        fps,
        bg_us,
        timings,
    ) + graph_args(graph_path, have_audio) + video_codec_args(fps, plan) + audio_codec_args(
        have_audio,
        chunk,
    ) + output_args(timings, out_path)
}

/// Builds the arguments of the command that runs the filter graph.
pub fn build_filter_complex_command(
    list_path: &str,
    pre_videos: &Vec<String>,
    bg_us: &Vec<u64>,
    audio_paths: &Vec<String>,
    audio_us: &Vec<u64>,
    w: i32,
    h: i32,
    fps: i32,
    timings: &ExportTimings,
    plan: &EncoderPlan,
    graph_path: &str,
    chunk_index: Option<i32>,
    out_path: &str,
) -> (args: Vec<String>)
    ensures
        texts(args@) == filter_command(
            list_path@,
            texts(pre_videos@),
            bg_us@,
            texts(audio_paths@),
            audio_us@,
            w as int,
            h as int,
            fps as int,
            timings@,
            plan@,
            graph_path@,
            chunk_index is Some,
            out_path@,
        ),
{
    let have_audio = has_audio(audio_us, timings);
    let mut args: Vec<String> = Vec::new();
    assert(texts(args@) =~= Seq::<Seq<char>>::empty());
    push_command_head(&mut args, list_path);
    assert(texts(args@) =~= command_head(list_path@));
    push_inputs(&mut args, pre_videos);
    push_inputs(&mut args, audio_paths);
    push_black_input(&mut args, w, h, fps, bg_us, timings);
    push_graph_args(&mut args, graph_path, have_audio);
    push_video_codec(&mut args, fps, plan);
    push_audio_codec(&mut args, have_audio, chunk_index.is_some());
    push_output_args(&mut args, timings, out_path);
    args
}

/// Where nothing of the background was prepared, as for a window that lies
/// before the playlist, the command generates black for the whole window.
pub proof fn lemma_black_for_whole_window(w: int, h: int, fps: int, timings: TimingsModel)
    ensures
        black_input_args(w, h, fps, Seq::<u64>::empty(), timings) == seq![
            "-f"@,
            "lavfi"@,
            "-i"@,
            black_source(w, h, fps, timings.duration, 1000 * timings.fps),
        ],
{
}

/// How the inputs of the command are numbered.
#[derive(Debug, Clone, Copy, PartialEq, Eq, Structural)]
pub struct InputLayout {
    /// The index of the first background input.
    pub bg_start_idx: i32,
    /// The index of the first audio input.
    pub audio_start_idx: i32,
    /// The first index after the named inputs.
    pub current_idx: i32,
}

/// Numbers the inputs of the command: the list of subtitle images is input
/// 0, the background segments follow from input 1, the audio files follow
/// them. There is no layout where the indices do not fit in 32 bits.
pub fn input_layout(backgrounds: usize, audios: usize) -> (layout: Option<InputLayout>)
    ensures
        match layout {
            Some(l) => l.bg_start_idx == 1 && l.audio_start_idx == 1 + backgrounds && l.current_idx
                == 1 + backgrounds + audios,
            None => 1 + backgrounds + audios >= i32::MAX,
        },
{
    let first_audio: u128 = 1 + backgrounds as u128;
    let next: u128 = first_audio + audios as u128;
    if next >= i32::MAX as u128 {
        None
    } else {
        Some(
            InputLayout {
                bg_start_idx: 1,
                audio_start_idx: first_audio as i32,
                current_idx: next as i32,
            },
        )
    }
}

} // verus!
