//! The frame loop of the direct compositor: which subtitle a frame shows, how
//! opaque it is, and when the loop ends.

use crate::text::round_half_up;
use crate::text::div_round_half_up;
use vstd::prelude::*;

verus! {

/// Frames between two progress reports.
pub const PROGRESS_INTERVAL: u64 = 30;

/// The time of frame `frame_idx` in milliseconds: its offset at `fps` frames
/// per second, rounded to the nearest millisecond, after `start_ms`.
pub open spec fn frame_time_ms(frame_idx: int, fps: int, start_ms: int) -> int {
    round_half_up(frame_idx * 1000, fps) + start_ms
}

/// Computes [`frame_time_ms`].
pub fn frame_time(frame_idx: u64, fps: i32, start_ms: i32) -> (t: i128)
    requires
        fps > 0,
    ensures
        t == frame_time_ms(frame_idx as int, fps as int, start_ms as int),
        start_ms <= t <= MAX_TIME_MS,
{
    let offset = div_round_half_up(frame_idx as u128 * 1000, fps as u128);
    offset as i128 + start_ms as i128
}

/// Whether subtitle `i` is the one shown at `time_ms`: its onset has passed
/// and the next subtitle's has not. The last subtitle stays for good.
pub open spec fn is_active(onsets: Seq<i32>, i: int, time_ms: int) -> bool {
    &&& 0 <= i < onsets.len()
    &&& onsets[i] <= time_ms
    &&& (i + 1 < onsets.len() ==> time_ms < onsets[i + 1])
}

/// The first subtitle at or after index `from` that is active at `time_ms`.
pub open spec fn first_active_from(onsets: Seq<i32>, time_ms: int, from: int) -> Option<usize>
    decreases onsets.len() - from,
{
    if from < 0 || from >= onsets.len() {
        None
    } else if is_active(onsets, from, time_ms) {
        Some(from as usize)
    } else {
        first_active_from(onsets, time_ms, from + 1)
    }
}

/// The subtitle shown at `time_ms`: the first one that is active, if any.
pub open spec fn first_active(onsets: Seq<i32>, time_ms: int) -> Option<usize> {
    first_active_from(onsets, time_ms, 0)
}

/// Finds the subtitle shown at `time_ms`.
pub fn active_subtitle(onsets: &[i32], time_ms: i128) -> (r: Option<usize>)
    ensures
        r == first_active(onsets@, time_ms as int),
        match r {
            Some(i) => is_active(onsets@, i as int, time_ms as int) && forall|j: int|
                0 <= j < i ==> !is_active(onsets@, j, time_ms as int),
            None => forall|j: int| !is_active(onsets@, j, time_ms as int),
        },
{
    let n = onsets.len();
    let mut i: usize = 0;
    while i < n
        invariant
            i <= n,
            n == onsets@.len(),
            forall|j: int| 0 <= j < i ==> !is_active(onsets@, j, time_ms as int),
            first_active(onsets@, time_ms as int) == first_active_from(
                onsets@,
                time_ms as int,
                i as int,
            ),
        decreases n - i,
    {
        let begun = onsets[i] as i128 <= time_ms;
        let open = if i + 1 < n {
            time_ms < onsets[i + 1] as i128
        } else {
            true
        };
        if begun && open {
            return Some(i);
        }
        i += 1;
    }
    None
}

/// An opacity as the fraction `num / den`, `den > 0`.
#[derive(Debug, Clone, Copy, PartialEq, Eq, Structural)]
pub struct Alpha {
    /// The numerator.
    pub num: i128,
    /// The denominator, positive.
    pub den: i128,
}

impl Alpha {
    /// Fully opaque.
    pub open spec fn opaque() -> Alpha {
        Alpha { num: 1, den: 1 }
    }
}

/// The opacity of subtitle `i` at `time_ms`.
///
/// With `rel_in` the time since the onset and `rel_out` the time left until
/// the next onset, the opacity is `rel_in / fade_ms` while `rel_in < fade_ms`,
/// else `rel_out / fade_ms` while `rel_out < fade_ms`, else one. The last
/// subtitle lasts without end and does not fade out. A fade that is not
/// positive leaves the subtitle fully opaque. Outside its span, before its
/// onset or from the next onset on, a subtitle is transparent.
pub open spec fn alpha_at(onsets: Seq<i32>, i: int, time_ms: int, fade_ms: int) -> Alpha {
    let rel_in = time_ms - onsets[i];
    let rel_out = onsets[i + 1] - time_ms;
    if fade_ms <= 0 {
        Alpha::opaque()
    } else if rel_in < 0 {
        Alpha { num: 0, den: fade_ms as i128 }
    } else if rel_in < fade_ms {
        Alpha { num: rel_in as i128, den: fade_ms as i128 }
    } else if i + 1 < onsets.len() && rel_out <= 0 {
        Alpha { num: 0, den: fade_ms as i128 }
    } else if i + 1 < onsets.len() && rel_out < fade_ms {
        Alpha { num: rel_out as i128, den: fade_ms as i128 }
    } else {
        Alpha::opaque()
    }
}

/// The largest magnitude of a time that [`fade_alpha`] accepts, in
/// milliseconds.
pub const MAX_TIME_MS: i128 = 0x1_0000_0000_0000_0000_0000;

/// Computes [`alpha_at`].
pub fn fade_alpha(onsets: &[i32], i: usize, time_ms: i128, fade_ms: i32) -> (alpha: Alpha)
    requires
        i < onsets@.len(),
        -MAX_TIME_MS <= time_ms <= MAX_TIME_MS,
    ensures
        alpha == alpha_at(onsets@, i as int, time_ms as int, fade_ms as int),
        alpha.den > 0,
        0 <= alpha.num <= alpha.den,
{
    let rel_in = time_ms - onsets[i] as i128;
    if fade_ms <= 0 {
        return Alpha { num: 1, den: 1 };
    }
    let fade = fade_ms as i128;
    if rel_in < 0 {
        return Alpha { num: 0, den: fade };
    }
    if rel_in < fade {
        return Alpha { num: rel_in, den: fade };
    }
    if i + 1 < onsets.len() {
        let rel_out = onsets[i + 1] as i128 - time_ms;
        if rel_out <= 0 {
            return Alpha { num: 0, den: fade };
        }
        if rel_out < fade {
            return Alpha { num: rel_out, den: fade };
        }
    }
    Alpha { num: 1, den: 1 }
}

/// The offset of a frame in milliseconds does not shrink from one frame to a
/// later one.
pub proof fn lemma_frame_time_monotonic(a: int, b: int, fps: int, start_ms: int)
    requires
        0 <= a <= b,
        0 < fps,
    ensures
        start_ms <= frame_time_ms(a, fps, start_ms) <= frame_time_ms(b, fps, start_ms),
{
    let x = a * 1000;
    let y = b * 1000;
    let qx = x / fps;
    let rx = x % fps;
    let qy = y / fps;
    let ry = y % fps;
    assert(x == qx * fps + rx && 0 <= rx < fps && 0 <= qx) by (nonlinear_arith)
        requires
            qx == x / fps,
            rx == x % fps,
            0 < fps,
            0 <= x,
    ;
    assert(y == qy * fps + ry && 0 <= ry < fps) by (nonlinear_arith)
        requires
            qy == y / fps,
            ry == y % fps,
            0 < fps,
    ;
    assert(qx < qy || (qx == qy && rx <= ry)) by (nonlinear_arith)
        requires
            x == qx * fps + rx,
            y == qy * fps + ry,
            0 <= rx < fps,
            0 <= ry < fps,
            x <= y,
            0 < fps,
    ;
}

/// A subtitle whose onset is the start of the window fades in over the first
/// frames: where the fade is a whole number `k` of frames, every frame
/// before frame `k` shows the subtitle at the share of the fade that has
/// passed, which is less than one and does not shrink from frame to frame,
/// and frame `k` is the first that shows it fully opaque. This holds where
/// the next subtitle, if there is one, comes no sooner than two fades after
/// the onset, and where a frame lasts more than half a millisecond, so that
/// no two frames fall on the same millisecond.
pub proof fn lemma_fade_in_ramp(
    onsets: Seq<i32>,
    i: int,
    fps: int,
    fade_ms: int,
    start_ms: int,
    k: int,
    j: int,
)
    requires
        0 <= i < onsets.len(),
        0 < fps < 2000,
        0 < fade_ms <= i32::MAX,
        onsets[i] == start_ms,
        i + 1 < onsets.len() ==> onsets[i + 1] - onsets[i] >= 2 * fade_ms,
        k * 1000 == fade_ms * fps,
        0 <= j < k,
    ensures
        alpha_at(onsets, i, frame_time_ms(k, fps, start_ms), fade_ms) == Alpha::opaque(),
        alpha_at(onsets, i, frame_time_ms(j, fps, start_ms), fade_ms) == (Alpha {
            num: (frame_time_ms(j, fps, start_ms) - start_ms) as i128,
            den: fade_ms as i128,
        }),
        0 <= frame_time_ms(j, fps, start_ms) - start_ms < fade_ms,
        j + 1 < k ==> frame_time_ms(j, fps, start_ms) <= frame_time_ms(j + 1, fps, start_ms),
        j == 0 ==> frame_time_ms(j, fps, start_ms) == start_ms,
{
    lemma_frame_time_monotonic(j, j + 1, fps, start_ms);
    let full = k * 1000;
    assert(full / fps == fade_ms && full % fps == 0) by (nonlinear_arith)
        requires
            full == fade_ms * fps,
            0 < fps,
    ;
    let x = j * 1000;
    let q = x / fps;
    let r = x % fps;
    assert(x == q * fps + r && 0 <= r < fps && 0 <= q) by (nonlinear_arith)
        requires
            q == x / fps,
            r == x % fps,
            0 < fps,
            0 <= x,
    ;
    assert(q < fade_ms && (q == fade_ms - 1 ==> 2 * r < fps)) by (nonlinear_arith)
        requires
            x == q * fps + r,
            0 <= r < fps,
            x <= fade_ms * fps - 1000,
            0 < fps < 2000,
    ;
    if j == 0 {
        assert(q == 0 && r == 0) by (nonlinear_arith)
            requires
                x == 0,
                x == q * fps + r,
                0 <= r < fps,
                0 <= q,
                0 < fps,
        ;
    }
}

/// What the loop does for one frame.
#[derive(Debug, Clone, Copy, PartialEq, Eq, Structural)]
pub struct FramePlan {
    /// The index of the frame, counted from the start of the window.
    pub frame_idx: u64,
    /// The time of the frame in milliseconds.
    pub time_ms: i128,
    /// The subtitle to blend over the background, if one is active.
    pub subtitle: Option<usize>,
    /// Whether the subtitle's image has to be loaded and uploaded first.
    pub reload_subtitle: bool,
    /// The opacity of the subtitle; fully opaque where none is active.
    pub alpha: Alpha,
    /// The progress to report with this frame, in hundredths of a percent.
    pub progress: Option<u64>,
}

/// The next move of the frame loop.
#[derive(Debug, Clone, Copy, PartialEq, Eq, Structural)]
pub enum LoopStep {
    /// Read a background frame and compose it as planned.
    Compose(FramePlan),
    /// All frames are written: close the encoder.
    Finish,
    /// The job was cancelled: stop without writing another frame.
    Cancelled,
}

/// The progress of the frame loop.
#[derive(Debug, Clone, Copy, PartialEq, Eq, Structural)]
pub struct StreamState {
    /// Frames written so far.
    pub written: u64,
    /// Frames to write in all.
    pub total: u64,
    /// The subtitle whose image is on the device.
    pub last_subtitle: Option<usize>,
}

/// The share `written / total` in hundredths of a percent, rounded down.
pub open spec fn progress_of(written: int, total: int) -> int {
    written * 10000 / total
}

/// The plan for the frame that follows `state.written` written frames.
pub open spec fn plan_for(
    state: StreamState,
    onsets: Seq<i32>,
    fps: int,
    fade_ms: int,
    start_ms: int,
) -> FramePlan {
    let time_ms = frame_time_ms(state.written as int, fps, start_ms);
    let subtitle = first_active(onsets, time_ms);
    FramePlan {
        frame_idx: state.written,
        time_ms: time_ms as i128,
        subtitle,
        reload_subtitle: subtitle is Some && state.last_subtitle != subtitle,
        alpha: match subtitle {
            Some(i) => alpha_at(onsets, i as int, time_ms, fade_ms),
            None => Alpha::opaque(),
        },
        progress: if state.written % PROGRESS_INTERVAL == 0 {
            Some(progress_of(state.written as int, state.total as int) as u64)
        } else {
            None
        },
    }
}

/// The next move in a state: to finish once all frames are written, else to
/// compose the frame that follows.
pub open spec fn loop_step(
    state: StreamState,
    onsets: Seq<i32>,
    fps: int,
    fade_ms: int,
    start_ms: int,
) -> LoopStep {
    if state.written >= state.total {
        LoopStep::Finish
    } else {
        LoopStep::Compose(plan_for(state, onsets, fps, fade_ms, start_ms))
    }
}

/// The state after the planned frame was written.
pub open spec fn after_frame(state: StreamState, plan: FramePlan) -> StreamState {
    StreamState {
        written: (state.written + 1) as u64,
        total: state.total,
        last_subtitle: plan.subtitle,
    }
}

/// The state after one round of the loop: the planned frame is written
/// unless the loop has finished.
pub open spec fn after_round(
    state: StreamState,
    onsets: Seq<i32>,
    fps: int,
    fade_ms: int,
    start_ms: int,
) -> StreamState {
    match loop_step(state, onsets, fps, fade_ms, start_ms) {
        LoopStep::Compose(plan) => after_frame(state, plan),
        _ => state,
    }
}

/// The state after `rounds` rounds of the loop on a window of `total` frames.
pub open spec fn after_rounds(
    total: u64,
    onsets: Seq<i32>,
    fps: int,
    fade_ms: int,
    start_ms: int,
    rounds: nat,
) -> StreamState
    decreases rounds,
{
    if rounds == 0 {
        StreamState { written: 0, total, last_subtitle: None }
    } else {
        after_round(
            after_rounds(total, onsets, fps, fade_ms, start_ms, (rounds - 1) as nat),
            onsets,
            fps,
            fade_ms,
            start_ms,
        )
    }
}

/// The loop writes one frame per round until all frames of the window are
/// written, and finishes exactly then: a loop that ends by finishing has sent
/// exactly `total` frames to the encoder.
pub proof fn lemma_frames_written(
    total: u64,
    onsets: Seq<i32>,
    fps: int,
    fade_ms: int,
    start_ms: int,
    rounds: nat,
)
    ensures
        after_rounds(total, onsets, fps, fade_ms, start_ms, rounds).total == total,
        after_rounds(total, onsets, fps, fade_ms, start_ms, rounds).written == if rounds <= total {
            rounds as int
        } else {
            total as int
        },
        loop_step(
            after_rounds(total, onsets, fps, fade_ms, start_ms, rounds),
            onsets,
            fps,
            fade_ms,
            start_ms,
        ) == LoopStep::Finish <==> rounds >= total,
    decreases rounds,
{
    if rounds > 0 {
        lemma_frames_written(total, onsets, fps, fade_ms, start_ms, (rounds - 1) as nat);
    }
}

impl StreamState {
    /// The state before the first frame of a window of `total` frames.
    pub fn new(total: u64) -> (state: StreamState)
        ensures
            state == (StreamState { written: 0, total, last_subtitle: None }),
    {
        StreamState { written: 0, total, last_subtitle: None }
    }

    /// The next move: to finish once `total` frames are written, else to
    /// compose the next frame.
    pub fn next_step(&self, onsets: &[i32], fps: i32, fade_ms: i32, start_ms: i32) -> (step:
        LoopStep)
        requires
            fps > 0,
        ensures
            step == loop_step(*self, onsets@, fps as int, fade_ms as int, start_ms as int),
    {
        if self.written >= self.total {
            return LoopStep::Finish;
        }
        let time_ms = frame_time(self.written, fps, start_ms);
        let subtitle = active_subtitle(onsets, time_ms);
        let reload_subtitle = match (subtitle, self.last_subtitle) {
            (Some(now), Some(before)) => now != before,
            (Some(_), None) => true,
            (None, _) => false,
        };
        let alpha = match subtitle {
            Some(i) => fade_alpha(onsets, i, time_ms, fade_ms),
            None => Alpha { num: 1, den: 1 },
        };
        let progress = if self.written % PROGRESS_INTERVAL == 0 {
            let share = (self.written as u128 * 10000) / (self.total as u128);
            assert(share <= 10000) by (nonlinear_arith)
                requires
                    share == (self.written * 10000) / (self.total as int),
                    self.written < self.total,
            ;
            Some(share as u64)
        } else {
            None
        };
        LoopStep::Compose(
            FramePlan {
                frame_idx: self.written,
                time_ms,
                subtitle,
                reload_subtitle,
                alpha,
                progress,
            },
        )
    }

    /// The next move at a frame boundary: to stop where the job was
    /// cancelled, else what [`StreamState::next_step`] says. A cancel thus
    /// ends the loop before the next frame is read.
    pub fn step_unless_cancelled(
        &self,
        cancelled: bool,
        onsets: &[i32],
        fps: i32,
        fade_ms: i32,
        start_ms: i32,
    ) -> (step: LoopStep)
        requires
            fps > 0,
        ensures
            cancelled ==> step == LoopStep::Cancelled,
            !cancelled ==> step == loop_step(
                *self,
                onsets@,
                fps as int,
                fade_ms as int,
                start_ms as int,
            ),
    {
        if cancelled {
            LoopStep::Cancelled
        } else {
            self.next_step(onsets, fps, fade_ms, start_ms)
        }
    }

    /// Records that the planned frame was written to the encoder.
    pub fn frame_written(&mut self, plan: &FramePlan)
        requires
            old(self).written < old(self).total,
        ensures
            *final(self) == after_frame(*old(self), *plan),
    {
        self.written = self.written + 1;
        self.last_subtitle = plan.subtitle;
    }
}

} // verus!
