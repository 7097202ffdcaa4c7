//! The filter graph of the declarative pipeline: the subtitle track is cut
//! into one faded clip per subtitle, the clips are strung together and laid
//! over the background, and the audio is resampled, joined and trimmed.

use crate::text::decimal;
use crate::text::decimal_digits;
use crate::text::join;
use crate::text::join_strings;
use crate::text::push_integer;
use crate::text::push_natural;
use crate::text::push_string;
use crate::text::push_text;
use crate::text::push_wide_integer;
use crate::text::extend_texts;
use crate::timeline::MAX_SEGMENTS;
use crate::timeline::MAX_SEGMENT_TICKS;
use crate::text::seconds_text;
use crate::text::seconds_to_string;
use crate::text::texts;
use crate::timeline::total;
use crate::timeline::ExportTimings;
use crate::timeline::TimingsModel;
use crate::timeline::lemma_total_step;
use vstd::prelude::*;

verus! {

/// The labels `[<name>0][<name>1]…` of `n` streams.
pub open spec fn stream_labels(name: Seq<char>, n: nat) -> Seq<char>
    decreases n,
{
    if n == 0 {
        Seq::empty()
    } else {
        stream_labels(name, (n - 1) as nat) + "["@ + name + decimal_digits((n - 1) as nat) + "]"@
    }
}

/// Builds [`stream_labels`].
pub fn build_stream_labels(name: &str, n: usize) -> (labels: String)
    ensures
        labels@ == stream_labels(name@, n as nat),
{
    let mut labels = String::new();
    let mut i: usize = 0;
    while i < n
        invariant
            i <= n,
            labels@ == stream_labels(name@, i as nat),
        decreases n - i,
    {
        labels.append("[");
        labels.append(name);
        push_natural(&mut labels, i as u128);
        labels.append("]");
        i += 1;
    }
    labels
}

/// The chain that brings the subtitle track to the frame size and rate, with
/// an alpha channel.
pub open spec fn overlay_source(w: int, h: int, fps: int) -> Seq<char> {
    "[0:v]format=rgba,scale=w="@ + decimal(w) + ":h="@ + decimal(h)
        + ":force_original_aspect_ratio=decrease,pad="@ + decimal(w) + ":"@ + decimal(h)
        + ":(ow-iw)/2:(oh-ih)/2:color=black@0,fps="@ + decimal(fps)
        + ",setpts=PTS-STARTPTS,setsar=1,format=yuva420p"@
}

/// Builds [`overlay_source`].
fn build_overlay_source(w: i32, h: i32, fps: i32) -> (s: String)
    ensures
        s@ == overlay_source(w as int, h as int, fps as int),
{
    let mut s = String::from_str("[0:v]format=rgba,scale=w=");
    push_integer(&mut s, w as i64);
    s.append(":h=");
    push_integer(&mut s, h as i64);
    s.append(":force_original_aspect_ratio=decrease,pad=");
    push_integer(&mut s, w as i64);
    s.append(":");
    push_integer(&mut s, h as i64);
    s.append(":(ow-iw)/2:(oh-ih)/2:color=black@0,fps=");
    push_integer(&mut s, fps as i64);
    s.append(",setpts=PTS-STARTPTS,setsar=1,format=yuva420p");
    s
}

/// The fade in ticks: `fade_ms` milliseconds, nothing where that is negative.
pub open spec fn fade_ticks(fade_ms: int, fps: int) -> int {
    if fade_ms > 0 {
        fade_ms * fps
    } else {
        0
    }
}

/// Twice the fade that a segment of `duration` ticks gets, in ticks: the fade
/// asked for, but no more than half the segment.
pub open spec fn safe_fade_doubled(fade_ms: int, fps: int, duration: int) -> int {
    if 2 * fade_ticks(fade_ms, fps) < duration {
        2 * fade_ticks(fade_ms, fps)
    } else {
        duration
    }
}

/// The line that cuts subtitle `i` out of the track and fades it in and out.
///
/// The clip runs from the sum of the durations before it to that sum plus its
/// own duration. Both fades last `min(fade, duration / 2)`; the fade-out
/// starts that long before the clip ends.
pub open spec fn trim_line(timings: TimingsModel, fade_ms: int, i: int) -> Seq<char> {
    trim_line_of(
        i,
        total(timings.durations.take(i)),
        timings.durations[i],
        fade_ms,
        timings.fps,
    )
}

/// The line that cuts a clip of `duration` ticks that starts at `start` ticks
/// out of the track, as subtitle `i`.
pub open spec fn trim_line_of(i: int, start: int, duration: int, fade_ms: int, fps: int) -> Seq<
    char,
> {
    let den = 1000 * fps;
    let fade2 = safe_fade_doubled(fade_ms, fps, duration);
    "[b"@ + decimal_digits(i as nat) + "]trim=start="@ + seconds_text(start, den) + ":end="@
        + seconds_text(start + duration, den) + ",setpts=PTS-STARTPTS,fade=t=in:st=0:d="@
        + seconds_text(fade2, 2 * den) + ":alpha=1,fade=t=out:st="@ + seconds_text(
        2 * duration - fade2,
        2 * den,
    ) + ":d="@ + seconds_text(fade2, 2 * den) + ":alpha=1[s"@ + decimal_digits(i as nat) + "]"@
}

/// The lines that build the subtitle overlay, and the label of their result.
///
/// In the linear mode the piped track already holds the finished sequence and
/// is only brought to size. Otherwise the track is split into one stream per
/// subtitle, each is trimmed and faded, and the clips are joined.
pub open spec fn overlay_lines(w: int, h: int, fps: int, fade_ms: int, timings: TimingsModel, linear: bool) -> Seq<
    Seq<char>,
> {
    let n = timings.durations.len();
    if linear {
        seq![overlay_source(w, h, fps) + "[lin_overlay]"@]
    } else {
        seq![overlay_source(w, h, fps) + ",split="@ + decimal_digits(n) + stream_labels("b"@, n)]
            + Seq::new(n, |i: int| trim_line(timings, fade_ms, i)) + seq![
            stream_labels("s"@, n) + "concat=n="@ + decimal_digits(n) + ":v=1:a=0[comp_overlay]"@,
        ]
    }
}

/// The label of the subtitle overlay.
pub open spec fn overlay_label(linear: bool) -> Seq<char> {
    if linear {
        "lin_overlay"@
    } else {
        "comp_overlay"@
    }
}

/// The sum of a list of durations.
pub open spec fn sum_of(durations: Seq<u64>) -> int
    decreases durations.len(),
{
    if durations.len() == 0 {
        0
    } else {
        sum_of(durations.drop_last()) + durations.last()
    }
}

/// Sums a list of durations.
pub fn sum_durations(durations: &Vec<u64>) -> (sum: u128)
    ensures
        sum == sum_of(durations@),
        sum <= durations@.len() * 0xFFFF_FFFF_FFFF_FFFF,
{
    let mut sum: u128 = 0;
    let mut i: usize = 0;
    while i < durations.len()
        invariant
            i <= durations.len(),
            sum == sum_of(durations@.take(i as int)),
            sum <= i * 0xFFFF_FFFF_FFFF_FFFF,
        decreases durations.len() - i,
    {
        assert(durations@.take(i + 1).drop_last() =~= durations@.take(i as int));
        sum = sum + durations[i] as u128;
        i += 1;
    }
    assert(durations@.take(durations.len() as int) =~= durations@);
    sum
}

/// Whether the prepared background is missing: there is no segment, or the
/// segments together last no more than a microsecond.
pub open spec fn background_missing(bg_us: Seq<u64>) -> bool {
    bg_us.len() == 0 || sum_of(bg_us) <= 1
}

/// Whether the prepared background falls short of the window by more than a
/// microsecond, so that a black filler has to follow it.
pub open spec fn background_short(bg_us: Seq<u64>, timings: TimingsModel) -> bool {
    !background_missing(bg_us) && (sum_of(bg_us) + 1) * timings.fps < timings.duration * 1000
}

/// Whether the graph takes a generated black input: as the whole background
/// where that is missing, or as the filler where it is short.
pub open spec fn needs_black_input(bg_us: Seq<u64>, timings: TimingsModel) -> bool {
    background_missing(bg_us) || background_short(bg_us, timings)
}

/// The labels `[<first>:v][<first + 1>:v]…` of `n` inputs.
pub open spec fn input_labels(first: int, kind: Seq<char>, n: nat) -> Seq<char>
    decreases n,
{
    if n == 0 {
        Seq::empty()
    } else {
        input_labels(first, kind, (n - 1) as nat) + "["@ + decimal(first + n - 1) + kind + "]"@
    }
}

/// The lines that build the background.
pub open spec fn background_lines(
    bg_us: Seq<u64>,
    timings: TimingsModel,
    bg_start_idx: int,
    current_idx: int,
) -> Seq<Seq<char>> {
    if background_missing(bg_us) {
        Seq::empty()
    } else {
        let joined = if bg_us.len() > 1 {
            seq![
                input_labels(bg_start_idx, ":v"@, bg_us.len()) + "concat=n="@ + decimal_digits(
                    bg_us.len(),
                ) + ":v=1:a=0[bgcat]"@,
                "[bgcat]setpts=PTS-STARTPTS,setsar=1[bgtrim]"@,
            ]
        } else {
            seq!["["@ + decimal(bg_start_idx) + ":v]setpts=PTS-STARTPTS,setsar=1[bgtrim]"@]
        };
        if background_short(bg_us, timings) {
            joined + seq![
                "["@ + decimal(current_idx) + ":v]setsar=1[colorpad]"@,
                "[bgtrim][colorpad]concat=n=2:v=1:a=0[bg]"@,
            ]
        } else {
            joined
        }
    }
}

/// The label of the background.
pub open spec fn background_label(bg_us: Seq<u64>, timings: TimingsModel, current_idx: int) -> Seq<
    char,
> {
    if background_missing(bg_us) {
        decimal(current_idx) + ":v"@
    } else if background_short(bg_us, timings) {
        "bg"@
    } else {
        "bgtrim"@
    }
}

/// Whether the output has audio: there is an audio input, and the window
/// starts before the inputs end.
pub open spec fn audio_present(audio_us: Seq<u64>, timings: TimingsModel) -> bool {
    audio_us.len() > 0 && timings.start * 1000 < sum_of(audio_us) * timings.fps
}

/// The line that trims the joined audio to the window.
pub open spec fn audio_trim_line(source: Seq<char>, timings: TimingsModel) -> Seq<char> {
    let den = 1000 * timings.fps;
    "["@ + source + "]atrim=start="@ + seconds_text(timings.start, den)
        + ",asetpts=PTS-STARTPTS,atrim=end="@ + seconds_text(timings.duration, den) + "[aout]"@
}

/// The line that resamples audio input `j`.
pub open spec fn resample_line(audio_start_idx: int, j: int) -> Seq<char> {
    "["@ + decimal(audio_start_idx + j) + ":a]aresample=48000[aa"@ + decimal_digits(j as nat)
        + "]"@
}

/// The lines that resample `a` audio inputs to 48 kHz, join them where
/// there are several, and trim the result to the window.
pub open spec fn audio_chain(a: nat, timings: TimingsModel, audio_start_idx: int) -> Seq<Seq<char>> {
    if a == 1 {
        seq![resample_line(audio_start_idx, 0), audio_trim_line("aa0"@, timings)]
    } else {
        Seq::new(a, |j: int| resample_line(audio_start_idx, j)) + seq![
            stream_labels("aa"@, a) + "concat=n="@ + decimal_digits(a) + ":v=0:a=1[aacat]"@,
            audio_trim_line("aacat"@, timings),
        ]
    }
}

/// The lines that build the audio: none where the output has no audio, else
/// the chain over all audio inputs.
pub open spec fn audio_lines(audio_us: Seq<u64>, timings: TimingsModel, audio_start_idx: int) -> Seq<
    Seq<char>,
> {
    if !audio_present(audio_us, timings) {
        Seq::empty()
    } else {
        audio_chain(audio_us.len(), timings, audio_start_idx)
    }
}

/// The line that lays the overlay over the background.
pub open spec fn composite_line(background: Seq<char>, overlay: Seq<char>) -> Seq<char> {
    "["@ + background + "]["@ + overlay + "]overlay=shortest=1:x=0:y=0,format=yuv420p[vout]"@
}

/// All lines of the graph, in order.
pub open spec fn graph_lines(
    w: int,
    h: int,
    fps: int,
    fade_ms: int,
    timings: TimingsModel,
    bg_us: Seq<u64>,
    audio_us: Seq<u64>,
    audio_start_idx: int,
    bg_start_idx: int,
    current_idx: int,
    linear: bool,
) -> Seq<Seq<char>> {
    overlay_lines(w, h, fps, fade_ms, timings, linear) + background_lines(
        bg_us,
        timings,
        bg_start_idx,
        current_idx,
    ) + seq![
        composite_line(background_label(bg_us, timings, current_idx), overlay_label(linear)),
    ] + audio_lines(audio_us, timings, audio_start_idx)
}

/// Builds [`trim_line_of`].
fn build_trim_line(i: usize, start: u128, duration: u128, fade_ms: i32, fps: i32) -> (line: String)
    requires
        0 < fps,
        start <= MAX_SEGMENTS * MAX_SEGMENT_TICKS,
        duration <= MAX_SEGMENT_TICKS,
    ensures
        line@ == trim_line_of(i as int, start as int, duration as int, fade_ms as int, fps as int),
{
    let den: u64 = 1000 * (fps as u64);
    let fade: u128 = if fade_ms > 0 {
        assert(0 <= fade_ms * fps <= 0x8000_0000 * 0x8000_0000) by (nonlinear_arith)
            requires
                0 < fade_ms <= 0x8000_0000,
                0 < fps <= 0x8000_0000,
        ;
        (fade_ms as u128) * (fps as u128)
    } else {
        0
    };
    let fade2: u128 = if 2 * fade < duration {
        2 * fade
    } else {
        duration
    };
    let mut line = String::from_str("[b");
    push_natural(&mut line, i as u128);
    line.append("]trim=start=");
    line.append(seconds_to_string(start as i128, den).as_str());
    line.append(":end=");
    line.append(seconds_to_string((start + duration) as i128, den).as_str());
    line.append(",setpts=PTS-STARTPTS,fade=t=in:st=0:d=");
    line.append(seconds_to_string(fade2 as i128, 2 * den).as_str());
    line.append(":alpha=1,fade=t=out:st=");
    line.append(seconds_to_string((2 * duration - fade2) as i128, 2 * den).as_str());
    line.append(":d=");
    line.append(seconds_to_string(fade2 as i128, 2 * den).as_str());
    line.append(":alpha=1[s");
    push_natural(&mut line, i as u128);
    line.append("]");
    line
}

/// Builds [`overlay_lines`].
pub fn build_overlay_lines(
    w: i32,
    h: i32,
    fps: i32,
    fade_ms: i32,
    timings: &ExportTimings,
    linear: bool,
) -> (lines: Vec<String>)
    ensures
        texts(lines@) == overlay_lines(
            w as int,
            h as int,
            fps as int,
            fade_ms as int,
            timings@,
            linear,
        ),
{
    let mut lines: Vec<String> = Vec::new();
    assert(texts(lines@) =~= Seq::<Seq<char>>::empty());
    let mut source = build_overlay_source(w, h, fps);
    if linear {
        source.append("[lin_overlay]");
        push_string(&mut lines, source);
        assert(texts(lines@) =~= overlay_lines(
            w as int,
            h as int,
            fps as int,
            fade_ms as int,
            timings@,
            linear,
        ));
        return lines;
    }
    let n = timings.len();
    let rate = timings.fps();
    source.append(",split=");
    push_natural(&mut source, n as u128);
    source.append(build_stream_labels("b", n).as_str());
    push_string(&mut lines, source);
    let ghost head = texts(lines@);
    let mut start: u128 = 0;
    let mut i: usize = 0;
    while i < n
        invariant
            i <= n,
            n == timings@.durations.len(),
            rate == timings@.fps,
            ExportTimings::well_formed(timings@),
            start == total(timings@.durations.take(i as int)),
            start <= i * MAX_SEGMENT_TICKS,
            texts(lines@) == head + Seq::new(i as nat, |k: int| trim_line(timings@, fade_ms as int, k)),
        decreases n - i,
    {
        let duration = timings.duration_of(i);
        proof {
            lemma_total_step(timings@.durations, i as int);
            assert(timings@.durations[i as int] <= MAX_SEGMENT_TICKS);
        }
        let line = build_trim_line(i, start, duration, fade_ms, rate);
        let ghost before = texts(lines@);
        push_string(&mut lines, line);
        assert(texts(lines@) =~= head + Seq::new(
            (i + 1) as nat,
            |k: int| trim_line(timings@, fade_ms as int, k),
        ));
        start = start + duration;
        i += 1;
    }
    let mut joined = build_stream_labels("s", n);
    joined.append("concat=n=");
    push_natural(&mut joined, n as u128);
    joined.append(":v=1:a=0[comp_overlay]");
    push_string(&mut lines, joined);
    assert(texts(lines@) =~= overlay_lines(
        w as int,
        h as int,
        fps as int,
        fade_ms as int,
        timings@,
        linear,
    ));
    lines
}

/// Builds [`input_labels`].
fn build_input_labels(first: i32, kind: &str, n: usize) -> (labels: String)
    ensures
        labels@ == input_labels(first as int, kind@, n as nat),
{
    let mut labels = String::new();
    let mut i: usize = 0;
    while i < n
        invariant
            i <= n,
            labels@ == input_labels(first as int, kind@, i as nat),
        decreases n - i,
    {
        labels.append("[");
        push_wide_integer(&mut labels, first as i128 + i as i128);
        labels.append(kind);
        labels.append("]");
        i += 1;
    }
    labels
}

/// A sum of durations so large that it exceeds every window.
pub const AMPLE_US: u128 = 0x1_0000_0000_0000_0000_0000;

/// Computes [`background_missing`].
pub fn is_background_missing(bg_us: &Vec<u64>) -> (missing: bool)
    ensures
        missing == background_missing(bg_us@),
{
    bg_us.len() == 0 || sum_durations(bg_us) <= 1
}

/// Computes [`background_short`].
pub fn is_background_short(bg_us: &Vec<u64>, timings: &ExportTimings) -> (short: bool)
    ensures
        short == background_short(bg_us@, timings@),
        short ==> sum_of(bg_us@) < AMPLE_US,
{
    let sum = sum_durations(bg_us);
    let fps = timings.fps();
    let duration = timings.duration();
    if is_background_missing(bg_us) {
        false
    } else if sum >= AMPLE_US {
        assert((sum + 1) * fps >= sum + 1) by (nonlinear_arith)
            requires
                fps >= 1,
                sum >= 0,
        ;
        false
    } else {
        assert((sum + 1) * fps <= AMPLE_US * 0x8000_0000) by (nonlinear_arith)
            requires
                0 < fps <= 0x8000_0000,
                0 <= sum < AMPLE_US,
        ;
        (sum + 1) * (fps as u128) < duration * 1000
    }
}

/// Builds [`background_lines`].
pub fn build_background_lines(
    bg_us: &Vec<u64>,
    timings: &ExportTimings,
    bg_start_idx: i32,
    current_idx: i32,
) -> (lines: Vec<String>)
    ensures
        texts(lines@) == background_lines(
            bg_us@,
            timings@,
            bg_start_idx as int,
            current_idx as int,
        ),
{
    let mut lines: Vec<String> = Vec::new();
    assert(texts(lines@) =~= Seq::<Seq<char>>::empty());
    if is_background_missing(bg_us) {
        return lines;
    }
    if bg_us.len() > 1 {
        let mut joined = build_input_labels(bg_start_idx, ":v", bg_us.len());
        joined.append("concat=n=");
        push_natural(&mut joined, bg_us.len() as u128);
        joined.append(":v=1:a=0[bgcat]");
        push_string(&mut lines, joined);
        push_text(&mut lines, "[bgcat]setpts=PTS-STARTPTS,setsar=1[bgtrim]");
    } else {
        let mut only = String::from_str("[");
        push_integer(&mut only, bg_start_idx as i64);
        only.append(":v]setpts=PTS-STARTPTS,setsar=1[bgtrim]");
        push_string(&mut lines, only);
    }
    if is_background_short(bg_us, timings) {
        let mut pad = String::from_str("[");
        push_integer(&mut pad, current_idx as i64);
        pad.append(":v]setsar=1[colorpad]");
        push_string(&mut lines, pad);
        push_text(&mut lines, "[bgtrim][colorpad]concat=n=2:v=1:a=0[bg]");
    }
    assert(texts(lines@) =~= background_lines(
        bg_us@,
        timings@,
        bg_start_idx as int,
        current_idx as int,
    ));
    lines
}

/// Builds [`background_label`].
pub fn build_background_label(bg_us: &Vec<u64>, timings: &ExportTimings, current_idx: i32) -> (label:
    String)
    ensures
        label@ == background_label(bg_us@, timings@, current_idx as int),
{
    if is_background_missing(bg_us) {
        let mut label = String::new();
        push_integer(&mut label, current_idx as i64);
        label.append(":v");
        assert(label@ =~= decimal(current_idx as int) + ":v"@);
        label
    } else if is_background_short(bg_us, timings) {
        String::from_str("bg")
    } else {
        String::from_str("bgtrim")
    }
}

/// Computes [`audio_present`].
pub fn has_audio(audio_us: &Vec<u64>, timings: &ExportTimings) -> (present: bool)
    ensures
        present == audio_present(audio_us@, timings@),
{
    let sum = sum_durations(audio_us);
    let fps = timings.fps();
    let start = timings.start();
    if audio_us.len() == 0 {
        false
    } else if sum >= AMPLE_US {
        assert(sum * fps >= sum) by (nonlinear_arith)
            requires
                fps >= 1,
                sum >= 0,
        ;
        true
    } else {
        assert(0 <= sum * fps <= AMPLE_US * 0x8000_0000) by (nonlinear_arith)
            requires
                0 < fps <= 0x8000_0000,
                0 <= sum < AMPLE_US,
        ;
        start * 1000 < (sum * (fps as u128)) as i128
    }
}

/// Builds [`audio_trim_line`].
fn build_audio_trim_line(source: &str, timings: &ExportTimings) -> (line: String)
    ensures
        line@ == audio_trim_line(source@, timings@),
{
    let den: u64 = 1000 * (timings.fps() as u64);
    let mut line = String::from_str("[");
    line.append(source);
    line.append("]atrim=start=");
    line.append(seconds_to_string(timings.start(), den).as_str());
    line.append(",asetpts=PTS-STARTPTS,atrim=end=");
    line.append(seconds_to_string(timings.duration() as i128, den).as_str());
    line.append("[aout]");
    line
}

/// Builds [`resample_line`].
fn build_resample_line(audio_start_idx: i32, j: usize) -> (line: String)
    ensures
        line@ == resample_line(audio_start_idx as int, j as int),
{
    let mut line = String::from_str("[");
    push_wide_integer(&mut line, audio_start_idx as i128 + j as i128);
    line.append(":a]aresample=48000[aa");
    push_natural(&mut line, j as u128);
    line.append("]");
    line
}

/// Builds [`audio_chain`].
pub fn build_audio_chain(a: usize, timings: &ExportTimings, audio_start_idx: i32) -> (lines: Vec<
    String,
>)
    ensures
        texts(lines@) == audio_chain(a as nat, timings@, audio_start_idx as int),
{
    let mut lines: Vec<String> = Vec::new();
    assert(texts(lines@) =~= Seq::<Seq<char>>::empty());
    if a == 1 {
        push_string(&mut lines, build_resample_line(audio_start_idx, 0));
        push_string(&mut lines, build_audio_trim_line("aa0", timings));
        assert(texts(lines@) =~= audio_chain(a as nat, timings@, audio_start_idx as int));
        return lines;
    }
    let mut j: usize = 0;
    while j < a
        invariant
            j <= a,
            texts(lines@) == Seq::new(j as nat, |k: int| resample_line(audio_start_idx as int, k)),
        decreases a - j,
    {
        push_string(&mut lines, build_resample_line(audio_start_idx, j));
        assert(texts(lines@) =~= Seq::new(
            (j + 1) as nat,
            |k: int| resample_line(audio_start_idx as int, k),
        ));
        j += 1;
    }
    let mut joined = build_stream_labels("aa", a);
    joined.append("concat=n=");
    push_natural(&mut joined, a as u128);
    joined.append(":v=0:a=1[aacat]");
    push_string(&mut lines, joined);
    push_string(&mut lines, build_audio_trim_line("aacat", timings));
    assert(texts(lines@) =~= audio_chain(a as nat, timings@, audio_start_idx as int));
    lines
}

/// Builds [`audio_lines`].
pub fn build_audio_lines(audio_us: &Vec<u64>, timings: &ExportTimings, audio_start_idx: i32) -> (lines:
    Vec<String>)
    ensures
        texts(lines@) == audio_lines(audio_us@, timings@, audio_start_idx as int),
{
    if !has_audio(audio_us, timings) {
        let lines: Vec<String> = Vec::new();
        assert(texts(lines@) =~= Seq::<Seq<char>>::empty());
        return lines;
    }
    build_audio_chain(audio_us.len(), timings, audio_start_idx)
}

/// A filter graph and what the command around it has to know.
#[derive(Debug, Clone)]
pub struct FilterContext {
    /// The graph, its lines joined by `;`.
    pub filter_complex: String,
    /// Whether the graph has an audio output.
    pub have_audio: bool,
    /// The index of the first input that is still free.
    pub current_idx: i64,
    /// The index of the first background input.
    pub bg_start_idx: i32,
    /// The index of the first audio input.
    pub audio_start_idx: i32,
    /// The total duration of the prepared background in microseconds.
    pub total_bg_us: u128,
}

/// Builds the filter graph.
///
/// `bg_us` and `audio_us` hold the probed durations of the prepared
/// background segments and of the audio inputs in microseconds. The inputs
/// are numbered: the subtitle track is input 0, the background segments
/// follow from `bg_start_idx`, the audio inputs from `audio_start_idx`, and
/// `current_idx` is the first index after them, which the generated black
/// input takes where the graph needs one. The linear layout is used only for
/// a streamed track in high fidelity.
pub fn build_filter_complex_content(
    w: i32,
    h: i32,
    fps: i32,
    fade_ms: i32,
    timings: &ExportTimings,
    bg_us: &Vec<u64>,
    audio_us: &Vec<u64>,
    audio_start_idx: i32,
    bg_start_idx: i32,
    current_idx: i32,
    is_streaming: bool,
    is_high_fidelity: bool,
) -> (ctx: FilterContext)
    ensures
        ctx.filter_complex@ == join(
            graph_lines(
                w as int,
                h as int,
                fps as int,
                fade_ms as int,
                timings@,
                bg_us@,
                audio_us@,
                audio_start_idx as int,
                bg_start_idx as int,
                current_idx as int,
                is_streaming && is_high_fidelity,
            ),
            ";"@,
        ),
        ctx.have_audio == audio_present(audio_us@, timings@),
        ctx.current_idx == if needs_black_input(bg_us@, timings@) {
            current_idx + 1
        } else {
            current_idx as int
        },
        ctx.bg_start_idx == bg_start_idx,
        ctx.audio_start_idx == audio_start_idx,
        ctx.total_bg_us == sum_of(bg_us@),
{
    let linear = is_streaming && is_high_fidelity;
    let mut lines = build_overlay_lines(w, h, fps, fade_ms, timings, linear);
    let background = build_background_lines(bg_us, timings, bg_start_idx, current_idx);
    extend_texts(&mut lines, &background);
    let label = build_background_label(bg_us, timings, current_idx);
    let mut composite = String::from_str("[");
    composite.append(label.as_str());
    composite.append("][");
    if linear {
        composite.append("lin_overlay");
    } else {
        composite.append("comp_overlay");
    }
    composite.append("]overlay=shortest=1:x=0:y=0,format=yuv420p[vout]");
    push_string(&mut lines, composite);
    let audio = build_audio_lines(audio_us, timings, audio_start_idx);
    extend_texts(&mut lines, &audio);
    let total_bg_us = sum_durations(bg_us);
    let black = is_background_missing(bg_us) || is_background_short(bg_us, timings);
    let next_idx: i64 = if black {
        current_idx as i64 + 1
    } else {
        current_idx as i64
    };
    assert(texts(lines@) =~= graph_lines(
        w as int,
        h as int,
        fps as int,
        fade_ms as int,
        timings@,
        bg_us@,
        audio_us@,
        audio_start_idx as int,
        bg_start_idx as int,
        current_idx as int,
        linear,
    ));
    FilterContext {
        filter_complex: join_strings(&lines, ";"),
        have_audio: has_audio(audio_us, timings),
        current_idx: next_idx,
        bg_start_idx,
        audio_start_idx,
        total_bg_us,
    }
}

/// The fade of a clip never exceeds half the clip: a fade longer than that
/// is cut to half, a shorter one is kept.
pub proof fn lemma_fade_clamped(fade_ms: int, fps: int, duration: int)
    requires
        0 < fps,
        0 <= duration,
    ensures
        safe_fade_doubled(fade_ms, fps, duration) <= duration,
        2 * fade_ticks(fade_ms, fps) >= duration ==> safe_fade_doubled(fade_ms, fps, duration)
            == duration,
        2 * fade_ticks(fade_ms, fps) < duration ==> safe_fade_doubled(fade_ms, fps, duration) == 2
            * fade_ticks(fade_ms, fps),
{
}

/// Without a prepared background the graph's background is the generated
/// black input, which the command makes as long as the whole window.
pub proof fn lemma_black_background(timings: TimingsModel, bg_start_idx: int, current_idx: int)
    ensures
        background_missing(Seq::<u64>::empty()),
        needs_black_input(Seq::<u64>::empty(), timings),
        background_lines(Seq::<u64>::empty(), timings, bg_start_idx, current_idx).len() == 0,
        background_label(Seq::<u64>::empty(), timings, current_idx) == decimal(current_idx) + ":v"@,
{
}

} // verus!
