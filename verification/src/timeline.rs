//! The timeline: subtitle onsets, a window and a frame rate turned into
//! segment durations and endpoints that lie on the frame grid.
//!
//! Times are kept as whole numbers of *ticks*. One tick is `1 / (1000 * fps)`
//! of a second, so a millisecond is `fps` ticks and a frame is `1000` ticks:
//! both the millisecond inputs and the frame grid are exact.

use crate::errors::InputError;
use vstd::prelude::*;

verus! {

/// The frame nearest to `ms` milliseconds at `fps` frames per second, ties
/// going away from zero.
pub open spec fn snap_frames(ms: int, fps: int) -> int {
    if ms >= 0 {
        (ms * fps + 500) / 1000
    } else {
        -(((-ms) * fps + 500) / 1000)
    }
}

/// `ms` milliseconds moved to the nearest frame boundary, in ticks.
pub open spec fn snap_ticks(ms: int, fps: int) -> int {
    1000 * snap_frames(ms, fps)
}

/// The time kept after the last onset: the fade, but at least one second.
pub open spec fn tail_ms(fade_ms: int) -> int {
    if fade_ms > 1000 {
        fade_ms
    } else {
        1000
    }
}

/// The end of segment `i` in milliseconds: the next onset, or the last onset
/// plus the tail.
pub open spec fn segment_end_ms(onsets: Seq<i32>, i: int, tail: int) -> int {
    if i + 1 < onsets.len() {
        onsets[i + 1] as int
    } else {
        onsets[i] + tail
    }
}

/// The snapped length of segment `i` in ticks, before the lower bound of one
/// millisecond is applied.
pub open spec fn segment_span(onsets: Seq<i32>, i: int, fps: int, tail: int) -> int {
    snap_ticks(segment_end_ms(onsets, i, tail), fps) - snap_ticks(onsets[i] as int, fps)
}

/// The duration of segment `i` in ticks: its snapped length, but at least one
/// millisecond.
pub open spec fn segment_ticks(onsets: Seq<i32>, i: int, fps: int, tail: int) -> int {
    let span = segment_span(onsets, i, fps, tail);
    if span > fps {
        span
    } else {
        fps
    }
}

/// The end of the composition in milliseconds: the end of the window where
/// one is given, else the last onset plus the tail.
pub open spec fn end_ms(onsets: Seq<i32>, start_ms: int, duration_ms: Option<i32>, tail: int) -> int {
    match duration_ms {
        Some(d) => start_ms + d,
        None => onsets.last() + tail,
    }
}

/// What a timeline holds, in ticks of `1 / (1000 * fps)` seconds.
pub struct TimingsModel {
    /// Frames per second.
    pub fps: int,
    /// The duration of each subtitle's segment.
    pub durations: Seq<int>,
    /// The snapped start of the window.
    pub start: int,
    /// The snapped length of the window, at least one frame.
    pub duration: int,
}

/// The timeline of the given onsets and window.
pub open spec fn timings_model(
    onsets: Seq<i32>,
    fps: int,
    fade_ms: int,
    start_ms: int,
    duration_ms: Option<i32>,
) -> TimingsModel {
    let tail = tail_ms(fade_ms);
    let start = snap_ticks(start_ms, fps);
    let span = snap_ticks(end_ms(onsets, start_ms, duration_ms, tail), fps) - start;
    TimingsModel {
        fps,
        durations: Seq::new(onsets.len(), |i: int| segment_ticks(onsets, i, fps, tail)),
        start,
        duration: if span > 1000 {
            span
        } else {
            1000
        },
    }
}

/// Whether each onset is later than the one before it.
pub open spec fn strictly_increasing(onsets: Seq<i32>) -> bool {
    forall|i: int, j: int| 0 <= i < j < onsets.len() ==> onsets[i] < onsets[j]
}

/// Why no timeline can be made of these inputs, if so.
pub open spec fn timing_error(onsets: Seq<i32>, fps: int) -> Option<InputError> {
    if fps <= 0 {
        Some(InputError::ZeroFps)
    } else if onsets.len() == 0 {
        Some(InputError::NoSubtitles)
    } else if !strictly_increasing(onsets) {
        Some(InputError::OnsetsNotIncreasing)
    } else {
        None
    }
}

/// The sum of a sequence of integers.
pub open spec fn total(s: Seq<int>) -> int
    decreases s.len(),
{
    if s.len() == 0 {
        0
    } else {
        total(s.drop_last()) + s.last()
    }
}

/// Computes [`snap_ticks`].
pub fn snap_to_ticks(ms: i64, fps: i32) -> (ticks: i128)
    requires
        fps > 0,
        -0x2_0000_0000 <= ms <= 0x2_0000_0000,
    ensures
        ticks == snap_ticks(ms as int, fps as int),
        -0x2_0000_0000_0000_0000 <= ticks <= 0x2_0000_0000_0000_0000,
{
    let magnitude: i128 = if ms >= 0 {
        ms as i128
    } else {
        -(ms as i128)
    };
    assert(0 <= magnitude * fps <= 0x2_0000_0000 * 0x8000_0000) by (nonlinear_arith)
        requires
            0 <= magnitude <= 0x2_0000_0000,
            0 < fps <= 0x8000_0000,
    ;
    let product: i128 = magnitude * (fps as i128);
    let frames: i128 = (product + 500) / 1000;
    if ms >= 0 {
        1000 * frames
    } else {
        -(1000 * frames)
    }
}

/// The largest number of segments a timeline can hold: onsets are distinct
/// 32-bit values.
pub const MAX_SEGMENTS: u128 = 0x1_0000_0000;

/// The largest duration of one segment, in ticks.
pub const MAX_SEGMENT_TICKS: u128 = 0x4_0000_0000_0000_0000;

/// A timeline: the frame rate, the duration of each subtitle's segment, and
/// the start and length of the window, all on the frame grid.
pub struct ExportTimings {
    pub(crate) fps: i32,
    pub(crate) durations: Vec<u128>,
    pub(crate) start: i128,
    pub(crate) duration: u128,
}

impl View for ExportTimings {
    type V = TimingsModel;

    closed spec fn view(&self) -> TimingsModel {
        TimingsModel {
            fps: self.fps as int,
            durations: self.durations@.map_values(|d: u128| d as int),
            start: self.start as int,
            duration: self.duration as int,
        }
    }
}

impl ExportTimings {
    #[verifier::type_invariant]
    pub closed spec fn valid(&self) -> bool {
        &&& 0 < self.fps
        &&& 0 < self.durations.len() <= MAX_SEGMENTS
        &&& forall|i: int|
            0 <= i < self.durations.len() ==> self.fps <= #[trigger] self.durations[i]
                <= MAX_SEGMENT_TICKS
        &&& -MAX_SEGMENT_TICKS <= self.start <= MAX_SEGMENT_TICKS
        &&& 1000 <= self.duration <= MAX_SEGMENT_TICKS
    }

    /// What holds of every timeline.
    pub open spec fn well_formed(model: TimingsModel) -> bool {
        &&& 0 < model.fps <= i32::MAX
        &&& 0 < model.durations.len() <= MAX_SEGMENTS
        &&& forall|i: int|
            0 <= i < model.durations.len() ==> model.fps <= #[trigger] model.durations[i]
                <= MAX_SEGMENT_TICKS
        &&& -MAX_SEGMENT_TICKS <= model.start <= MAX_SEGMENT_TICKS
        &&& 1000 <= model.duration <= MAX_SEGMENT_TICKS
    }

    /// Frames per second.
    pub fn fps(&self) -> (fps: i32)
        ensures
            fps == self@.fps,
            Self::well_formed(self@),
    {
        proof {
            use_type_invariant(self);
        }
        self.fps
    }

    /// The number of segments.
    pub fn len(&self) -> (n: usize)
        ensures
            n == self@.durations.len(),
    {
        self.durations.len()
    }

    /// The duration of segment `i` in ticks.
    pub fn duration_of(&self, i: usize) -> (d: u128)
        requires
            i < self@.durations.len(),
        ensures
            d == self@.durations[i as int],
    {
        self.durations[i]
    }

    /// The durations of all segments in ticks.
    pub fn durations(&self) -> (list: Vec<u128>)
        ensures
            list@.len() == self@.durations.len(),
            forall|i: int| 0 <= i < list@.len() ==> list@[i] == self@.durations[i],
    {
        let mut list: Vec<u128> = Vec::new();
        let mut i: usize = 0;
        while i < self.durations.len()
            invariant
                i <= self.durations.len(),
                list@.len() == i,
                forall|k: int| 0 <= k < i ==> list@[k] == self.durations@[k],
            decreases self.durations.len() - i,
        {
            list.push(self.durations[i]);
            i += 1;
        }
        list
    }

    /// The snapped start of the window in ticks.
    pub fn start(&self) -> (start: i128)
        ensures
            start == self@.start,
    {
        self.start
    }

    /// The snapped length of the window in ticks.
    pub fn duration(&self) -> (duration: u128)
        ensures
            duration == self@.duration,
    {
        self.duration
    }

    /// The length of the window in microseconds, rounded down.
    pub fn duration_micros(&self) -> (us: u128)
        ensures
            us == self@.duration * 1000 / self@.fps,
    {
        proof {
            use_type_invariant(self);
        }
        self.duration * 1000 / (self.fps as u128)
    }

    /// The number of frames in the window.
    pub fn total_frames(&self) -> (frames: u128)
        ensures
            frames == self@.duration / 1000,
    {
        self.duration / 1000
    }
}

/// Adding one more element to a prefix adds it to the prefix's sum.
pub proof fn lemma_total_step(s: Seq<int>, k: int)
    requires
        0 <= k < s.len(),
    ensures
        total(s.take(k + 1)) == total(s.take(k)) + s[k],
{
    assert(s.take(k + 1).drop_last() =~= s.take(k));
}

/// Strictly increasing onsets lie at least one millisecond apart, so the
/// `j`-th is at least `j` later than the first.
pub proof fn lemma_onsets_spread(onsets: Seq<i32>, j: int)
    requires
        strictly_increasing(onsets),
        0 <= j < onsets.len(),
    ensures
        onsets[j] >= onsets[0] + j,
    decreases j,
{
    if j > 0 {
        lemma_onsets_spread(onsets, j - 1);
    }
}

/// The sum of the segment durations is the snapped distance from the first
/// onset to the end of the tail, provided that no segment is shorter than one
/// millisecond after snapping (such a segment is lengthened to one
/// millisecond, and the sum grows by the difference).
pub proof fn lemma_durations_telescope(
    onsets: Seq<i32>,
    fps: int,
    fade_ms: int,
    start_ms: int,
    duration_ms: Option<i32>,
)
    requires
        timing_error(onsets, fps) is None,
        forall|i: int|
            0 <= i < onsets.len() ==> #[trigger] segment_span(onsets, i, fps, tail_ms(fade_ms))
                >= fps,
    ensures
        total(timings_model(onsets, fps, fade_ms, start_ms, duration_ms).durations) == snap_ticks(
            onsets.last() + tail_ms(fade_ms),
            fps,
        ) - snap_ticks(onsets[0] as int, fps),
{
    let tail = tail_ms(fade_ms);
    let durations = timings_model(onsets, fps, fade_ms, start_ms, duration_ms).durations;
    lemma_spans_telescope(onsets, fps, tail, durations, onsets.len() as int);
    assert(durations.take(onsets.len() as int) =~= durations);
}

proof fn lemma_spans_telescope(onsets: Seq<i32>, fps: int, tail: int, durations: Seq<int>, k: int)
    requires
        0 < k <= onsets.len(),
        durations.len() == onsets.len(),
        forall|i: int| 0 <= i < onsets.len() ==> durations[i] == #[trigger] segment_span(onsets, i, fps, tail),
    ensures
        total(durations.take(k)) == snap_ticks(segment_end_ms(onsets, k - 1, tail), fps) - snap_ticks(
            onsets[0] as int,
            fps,
        ),
    decreases k,
{
    lemma_total_step(durations, k - 1);
    assert(durations[k - 1] == segment_span(onsets, k - 1, fps, tail));
    if k == 1 {
        assert(durations.take(0) =~= Seq::<int>::empty());
    } else {
        lemma_spans_telescope(onsets, fps, tail, durations, k - 1);
    }
}

/// Every timeline lies on the frame grid: its window starts on a frame and
/// lasts a whole number of frames, at least one. A segment lasts at least one
/// millisecond, and a whole number of frames unless it was lengthened to one
/// millisecond.
pub proof fn lemma_on_frame_grid(
    onsets: Seq<i32>,
    fps: int,
    fade_ms: int,
    start_ms: int,
    duration_ms: Option<i32>,
    i: int,
)
    requires
        timing_error(onsets, fps) is None,
        0 <= i < onsets.len(),
    ensures
        timings_model(onsets, fps, fade_ms, start_ms, duration_ms).start % 1000 == 0,
        timings_model(onsets, fps, fade_ms, start_ms, duration_ms).duration % 1000 == 0,
        timings_model(onsets, fps, fade_ms, start_ms, duration_ms).duration >= 1000,
        timings_model(onsets, fps, fade_ms, start_ms, duration_ms).durations[i] >= fps,
        segment_span(onsets, i, fps, tail_ms(fade_ms)) > fps ==> timings_model(
            onsets,
            fps,
            fade_ms,
            start_ms,
            duration_ms,
        ).durations[i] % 1000 == 0,
{
}

/// Builds the timeline of a list of subtitle onsets.
///
/// The onsets are given in milliseconds and must be strictly increasing. A
/// window starts at `start_time_ms` and, where `duration_ms` is given, ends
/// that much later; otherwise it ends one tail after the last onset. The
/// fidelity flag does not change the result.
pub fn calculate_export_timings(
    timestamps_ms: &[i32],
    fps: i32,
    fade_duration_ms: i32,
    start_time_ms: i32,
    duration_ms: Option<i32>,
    is_high_fidelity: bool,
) -> (r: Result<ExportTimings, InputError>)
    ensures
        match r {
            Ok(timings) => timing_error(timestamps_ms@, fps as int) is None && timings@
                == timings_model(
                timestamps_ms@,
                fps as int,
                fade_duration_ms as int,
                start_time_ms as int,
                duration_ms,
            ),
            Err(e) => timing_error(timestamps_ms@, fps as int) == Some(e),
        },
{
    let n = timestamps_ms.len();
    if fps <= 0 {
        return Err(InputError::ZeroFps);
    }
    if n == 0 {
        return Err(InputError::NoSubtitles);
    }
    let mut k: usize = 1;
    while k < n
        invariant
            1 <= k <= n,
            0 < fps,
            n == timestamps_ms@.len(),
            forall|i: int, j: int| 0 <= i < j < k ==> timestamps_ms@[i] < timestamps_ms@[j],
        decreases n - k,
    {
        if timestamps_ms[k - 1] >= timestamps_ms[k] {
            assert(!(timestamps_ms@[k - 1] < timestamps_ms@[k as int]));
            return Err(InputError::OnsetsNotIncreasing);
        }
        assert forall|i: int, j: int| 0 <= i < j < k + 1 implies timestamps_ms@[i]
            < timestamps_ms@[j] by {
            if j == k && i < k - 1 {
                assert(timestamps_ms@[i] < timestamps_ms@[k - 1]);
            }
        }
        k += 1;
    }
    proof {
        lemma_onsets_spread(timestamps_ms@, n - 1);
    }
    let tail: i64 = if fade_duration_ms > 1000 {
        fade_duration_ms as i64
    } else {
        1000
    };
    let start = snap_to_ticks(start_time_ms as i64, fps);
    let end_ms: i64 = match duration_ms {
        Some(d) => start_time_ms as i64 + d as i64,
        None => timestamps_ms[n - 1] as i64 + tail,
    };
    let end = snap_to_ticks(end_ms, fps);
    let duration: u128 = if end - start > 1000 {
        (end - start) as u128
    } else {
        1000
    };
    let mut durations: Vec<u128> = Vec::new();
    let mut i: usize = 0;
    while i < n
        invariant
            i <= n,
            n == timestamps_ms@.len(),
            0 < fps,
            tail == tail_ms(fade_duration_ms as int),
            durations@.len() == i,
            forall|j: int|
                0 <= j < i ==> durations@[j] == #[trigger] segment_ticks(
                    timestamps_ms@,
                    j,
                    fps as int,
                    tail as int,
                ),
            forall|j: int| 0 <= j < i ==> fps <= #[trigger] durations@[j] <= MAX_SEGMENT_TICKS,
        decreases n - i,
    {
        let current = timestamps_ms[i] as i64;
        let next: i64 = if i + 1 < n {
            timestamps_ms[i + 1] as i64
        } else {
            current + tail
        };
        let span = snap_to_ticks(next, fps) - snap_to_ticks(current, fps);
        let ticks: u128 = if span > fps as i128 {
            span as u128
        } else {
            fps as u128
        };
        durations.push(ticks);
        i += 1;
    }
    let timings = ExportTimings { fps, durations, start, duration };
    proof {
        let model = timings_model(
            timestamps_ms@,
            fps as int,
            fade_duration_ms as int,
            start_time_ms as int,
            duration_ms,
        );
        assert(timings@.durations =~= model.durations);
    }
    let _ = is_high_fidelity;
    Ok(timings)
}

} // verus!
