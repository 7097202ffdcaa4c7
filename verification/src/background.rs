//! Preparing the background: which parts of which clips cover the window,
//! under which name each prepared part is cached, and the commands that
//! produce it.

use crate::codec::EncoderPlan;
use crate::codec::PlanModel;
use crate::codec::preset_args;
use crate::codec::push_preset;
use crate::text::bool_text;
use crate::text::chars_of;
use crate::text::contains_text;
use crate::text::decimal;
use crate::text::ends_with;
use crate::text::extend_texts;
use crate::text::has_suffix;
use crate::text::is_digit;
use crate::text::lemma_same_prefix;
use crate::text::join;
use crate::text::join_strings;
use crate::text::lowercase;
use crate::text::millis_text;
use crate::text::millis_to_string;
use crate::text::push_bool;
use crate::text::push_integer;
use crate::text::push_string;
use crate::text::push_text;
use crate::text::same_text;
use crate::text::seconds_text;
use crate::text::seconds_to_string;
use crate::text::shortest_text;
use crate::text::shortest_to_string;
use crate::text::text_contains;
use crate::text::texts;
use crate::text::to_lowercase;
use vstd::prelude::*;

verus! {

/// The length of a still image's loop where no duration is asked for, in
/// milliseconds.
pub const DEFAULT_IMAGE_MS: i64 = 30_000;

/// Whether a lower-cased path ends like the name of a still image.
pub open spec fn has_image_extension(lowered: Seq<char>) -> bool {
    ||| ends_with(lowered, ".jpg"@)
    ||| ends_with(lowered, ".jpeg"@)
    ||| ends_with(lowered, ".png"@)
    ||| ends_with(lowered, ".bmp"@)
    ||| ends_with(lowered, ".gif"@)
    ||| ends_with(lowered, ".webp"@)
    ||| ends_with(lowered, ".tiff"@)
    ||| ends_with(lowered, ".tif"@)
}

/// Whether a path that is already in lower case names a still image.
pub fn is_image_name(lowered: &str) -> (image: bool)
    ensures
        image == has_image_extension(lowered@),
{
    let name = chars_of(lowered);
    let jpg = chars_of(".jpg");
    let jpeg = chars_of(".jpeg");
    let png = chars_of(".png");
    let bmp = chars_of(".bmp");
    let gif = chars_of(".gif");
    let webp = chars_of(".webp");
    let tiff = chars_of(".tiff");
    let tif = chars_of(".tif");
    has_suffix(&name, &jpg) || has_suffix(&name, &jpeg) || has_suffix(&name, &png) || has_suffix(
        &name,
        &bmp,
    ) || has_suffix(&name, &gif) || has_suffix(&name, &webp) || has_suffix(&name, &tiff)
        || has_suffix(&name, &tif)
}

/// Whether a path names a still image, going by its extension without regard
/// to case.
pub fn is_image_file(path: &str) -> (image: bool)
    ensures
        image == has_image_extension(lowercase(path@)),
{
    let lowered = to_lowercase(path);
    is_image_name(lowered.as_str())
}

/// A Gaussian blur, its sigma given in thousandths.
#[derive(Debug, Clone, Copy, PartialEq, Eq, Structural)]
pub struct Blur {
    /// Sigma times one thousand.
    pub sigma_thousandths: u32,
}

/// Whether a blur is asked for and does anything.
pub open spec fn blurs(blur: Option<Blur>) -> bool {
    blur matches Some(b) && b.sigma_thousandths > 0
}

/// The sigma of a blur as text.
pub open spec fn sigma_text(blur: Option<Blur>) -> Seq<char> {
    shortest_text(blur->0.sigma_thousandths as int)
}

/// A source of the background playlist with its probed duration.
#[derive(Debug, Clone)]
pub struct Clip {
    /// The path of the source.
    pub path: String,
    /// Its duration in milliseconds.
    pub duration_ms: u64,
}

/// The part of one clip that is prepared.
#[derive(Debug, Clone, Copy, PartialEq, Eq, Structural)]
pub struct SegmentPlan {
    /// The position of the clip in the playlist.
    pub source_index: usize,
    /// Where the part starts within the clip, in milliseconds.
    pub start_within_ms: u64,
    /// How long the part is, in milliseconds.
    pub take_ms: u64,
}

/// The durations of a playlist.
pub open spec fn clip_durations(clips: Seq<Clip>) -> Seq<u64> {
    clips.map_values(|c: Clip| c.duration_ms)
}

/// The time at which clip `idx` starts in the playlist: the sum of the
/// durations before it.
pub open spec fn clip_offset(durations: Seq<u64>, idx: int) -> int
    decreases idx,
{
    if idx <= 0 {
        0
    } else {
        clip_offset(durations, idx - 1) + durations[idx - 1]
    }
}

/// The part of clip `idx` that the window `[start_ms, start_ms + budget)`
/// covers, if any. Without a budget the window has no end.
pub open spec fn planned_segment(
    durations: Seq<u64>,
    idx: int,
    start_ms: int,
    budget: Option<i32>,
) -> Option<SegmentPlan> {
    let offset = clip_offset(durations, idx);
    let start_within = if start_ms > offset {
        start_ms - offset
    } else {
        0
    };
    let elapsed = if offset > start_ms {
        offset - start_ms
    } else {
        0
    };
    let available = durations[idx] - start_within;
    let take = match budget {
        Some(b) => if b - elapsed < available {
            b - elapsed
        } else {
            available
        },
        None => available,
    };
    if take > 0 {
        Some(
            SegmentPlan {
                source_index: idx as usize,
                start_within_ms: start_within as u64,
                take_ms: take as u64,
            },
        )
    } else {
        None
    }
}

/// The parts of the first `upto` clips that the window covers, in playlist
/// order.
pub open spec fn planned_segments(
    durations: Seq<u64>,
    start_ms: int,
    budget: Option<i32>,
    upto: int,
) -> Seq<SegmentPlan>
    decreases upto,
{
    if upto <= 0 {
        Seq::empty()
    } else {
        let before = planned_segments(durations, start_ms, budget, upto - 1);
        match planned_segment(durations, upto - 1, start_ms, budget) {
            Some(segment) => before.push(segment),
            None => before,
        }
    }
}

/// Selects the parts of the playlist that cover the window.
///
/// The clips lie one after another from time zero. Each clip that the window
/// meets gives one segment: it starts where the window starts within the clip
/// (at the clip's start for later clips) and takes what the clip still holds,
/// but no more than what is left of the window.
pub fn plan_segments(durations: &Vec<u64>, start_time_ms: i32, duration_ms: Option<i32>) -> (plan:
    Vec<SegmentPlan>)
    ensures
        plan@ == planned_segments(
            durations@,
            start_time_ms as int,
            duration_ms,
            durations@.len() as int,
        ),
        forall|i: int| 0 <= i < plan@.len() ==> (#[trigger] plan@[i]).source_index < durations@.len(),
{
    let mut plan: Vec<SegmentPlan> = Vec::new();
    let mut offset: u128 = 0;
    let mut idx: usize = 0;
    while idx < durations.len()
        invariant
            idx <= durations.len(),
            offset == clip_offset(durations@, idx as int),
            offset <= idx * 0xFFFF_FFFF_FFFF_FFFF,
            plan@ == planned_segments(durations@, start_time_ms as int, duration_ms, idx as int),
            forall|i: int| 0 <= i < plan@.len() ==> (#[trigger] plan@[i]).source_index < idx,
        decreases durations.len() - idx,
    {
        let len = durations[idx] as u128;
        let (start_within, elapsed): (u128, u128) = if start_time_ms >= 0 {
            let start = start_time_ms as u128;
            if start > offset {
                (start - offset, 0)
            } else {
                (0, offset - start)
            }
        } else {
            (0, offset + ((-(start_time_ms as i64)) as u128))
        };
        if start_within < len {
            let available = len - start_within;
            let take: u128 = match duration_ms {
                Some(b) => {
                    if b <= 0 || b as u128 <= elapsed {
                        0
                    } else if (b as u128) - elapsed < available {
                        (b as u128) - elapsed
                    } else {
                        available
                    }
                },
                None => available,
            };
            if take > 0 {
                plan.push(
                    SegmentPlan {
                        source_index: idx,
                        start_within_ms: start_within as u64,
                        take_ms: take as u64,
                    },
                );
            }
        }
        offset = offset + len;
        idx += 1;
    }
    plan
}

/// A planned segment lies within its clip and within the window: it starts
/// inside the clip, ends no later than the clip, and is no longer than the
/// window.
pub proof fn lemma_segment_fits(durations: Seq<u64>, idx: int, start_ms: int, budget: Option<i32>)
    requires
        0 <= idx < durations.len() <= usize::MAX,
        i32::MIN <= start_ms <= i32::MAX,
        planned_segment(durations, idx, start_ms, budget) is Some,
    ensures
        ({
            let part = planned_segment(durations, idx, start_ms, budget)->0;
            &&& part.source_index == idx
            &&& part.take_ms > 0
            &&& part.start_within_ms + part.take_ms <= durations[idx]
            &&& clip_offset(durations, idx) + part.start_within_ms >= start_ms
            &&& budget matches Some(b) ==> clip_offset(durations, idx) + part.start_within_ms
                + part.take_ms <= start_ms + b
        }),
{
    lemma_clip_offset_nonnegative(durations, idx);
}

/// A window that ends at or before time zero meets no clip: nothing is
/// prepared, and the whole window is left to the black filler.
pub proof fn lemma_window_before_playlist(
    durations: Seq<u64>,
    start_ms: int,
    budget: i32,
    upto: int,
)
    requires
        start_ms + budget <= 0,
        0 <= upto <= durations.len(),
    ensures
        planned_segments(durations, start_ms, Some(budget), upto).len() == 0,
    decreases upto,
{
    if upto > 0 {
        lemma_window_before_playlist(durations, start_ms, budget, upto - 1);
        lemma_clip_offset_nonnegative(durations, upto - 1);
    }
}

/// Clips start at or after time zero.
pub proof fn lemma_clip_offset_nonnegative(durations: Seq<u64>, idx: int)
    requires
        0 <= idx <= durations.len(),
    ensures
        clip_offset(durations, idx) >= 0,
    decreases idx,
{
    if idx > 0 {
        lemma_clip_offset_nonnegative(durations, idx - 1);
    }
}

/// The MD5 digest of a sequence of bytes, sixteen bytes long.
pub uninterp spec fn md5_digest(data: Seq<u8>) -> Seq<u8>;

/// Calls `md5::compute`, which hashes the whole input with MD5 and returns the
/// sixteen bytes of the digest; the contract only names them.
#[verifier::external_body]
pub(crate) fn md5_of(data: &[u8]) -> (digest: [u8; 16])
    ensures
        digest@ == md5_digest(data@),
{
    md5::compute(data).0
}

/// The lower-case hexadecimal digit of `n`, `0 <= n <= 15`.
pub open spec fn hex_digit(n: int) -> char {
    if n == 0 {
        '0'
    } else if n == 1 {
        '1'
    } else if n == 2 {
        '2'
    } else if n == 3 {
        '3'
    } else if n == 4 {
        '4'
    } else if n == 5 {
        '5'
    } else if n == 6 {
        '6'
    } else if n == 7 {
        '7'
    } else if n == 8 {
        '8'
    } else if n == 9 {
        '9'
    } else if n == 10 {
        'a'
    } else if n == 11 {
        'b'
    } else if n == 12 {
        'c'
    } else if n == 13 {
        'd'
    } else if n == 14 {
        'e'
    } else {
        'f'
    }
}

/// Bytes written as two lower-case hexadecimal digits each.
pub open spec fn hex_text(bytes: Seq<u8>) -> Seq<char>
    decreases bytes.len(),
{
    if bytes.len() == 0 {
        Seq::empty()
    } else {
        hex_text(bytes.drop_last()).push(hex_digit(bytes.last() as int / 16)).push(
            hex_digit(bytes.last() as int % 16),
        )
    }
}

/// The lower-case hexadecimal digit of `n`.
pub fn hex_char(n: u8) -> (c: char)
    requires
        n < 16,
    ensures
        c == hex_digit(n as int),
{
    if n == 0 {
        '0'
    } else if n == 1 {
        '1'
    } else if n == 2 {
        '2'
    } else if n == 3 {
        '3'
    } else if n == 4 {
        '4'
    } else if n == 5 {
        '5'
    } else if n == 6 {
        '6'
    } else if n == 7 {
        '7'
    } else if n == 8 {
        '8'
    } else if n == 9 {
        '9'
    } else if n == 10 {
        'a'
    } else if n == 11 {
        'b'
    } else if n == 12 {
        'c'
    } else if n == 13 {
        'd'
    } else if n == 14 {
        'e'
    } else {
        'f'
    }
}

/// The first `bytes` bytes of a digest in hexadecimal: `2 * bytes` digits.
pub open spec fn digest_key(digest: Seq<u8>, bytes: int) -> Seq<char> {
    hex_text(digest.take(bytes))
}

/// Writes the first `bytes` bytes of a digest in hexadecimal.
pub fn key_from_digest(digest: &[u8; 16], bytes: usize) -> (key: String)
    requires
        bytes <= 16,
    ensures
        key@ == digest_key(digest@, bytes as int),
{
    let mut key = String::new();
    let mut i: usize = 0;
    while i < bytes
        invariant
            i <= bytes <= 16,
            key@ == hex_text(digest@.take(i as int)),
        decreases bytes - i,
    {
        let byte = digest[i];
        key.push(hex_char(byte / 16));
        key.push(hex_char(byte % 16));
        proof {
            let now = digest@.take(i + 1);
            assert(now.drop_last() =~= digest@.take(i as int));
            assert(now.last() == byte);
        }
        i += 1;
    }
    key
}

/// The key of a text: the first `2 * bytes` hexadecimal digits of the MD5
/// digest of its UTF-8 bytes.
pub open spec fn text_key(description: Seq<char>, bytes: int) -> Seq<char> {
    digest_key(md5_digest(vstd::utf8::encode_utf8(description)), bytes)
}

/// Computes the key of a text from `bytes` bytes of its digest.
pub fn key_of_text(description: &str, bytes: usize) -> (key: String)
    requires
        bytes <= 16,
    ensures
        key@ == text_key(description@, bytes as int),
{
    let digest = md5_of(description.as_bytes());
    key_from_digest(&digest, bytes)
}

/// The cache key of a description: ten hexadecimal digits of the MD5 digest
/// of its UTF-8 bytes.
pub open spec fn cache_key_of(description: Seq<char>) -> Seq<char> {
    text_key(description, 5)
}

/// Computes the cache key of a description.
pub fn cache_key(description: &str) -> (key: String)
    ensures
        key@ == cache_key_of(description@),
{
    key_of_text(description, 5)
}

/// The part of a description that tells of the blur: nothing where there is
/// none.
pub open spec fn blur_suffix(blur: Option<Blur>) -> Seq<char> {
    if blurs(blur) {
        "-blur"@ + sigma_text(blur)
    } else {
        Seq::empty()
    }
}

/// Appends [`blur_suffix`].
fn push_blur_suffix(s: &mut String, blur: Option<Blur>)
    ensures
        final(s)@ == old(s)@ + blur_suffix(blur),
{
    match blur {
        Some(b) => {
            if b.sigma_thousandths > 0 {
                let sigma = shortest_to_string(b.sigma_thousandths as i128);
                s.append("-blur");
                s.append(sigma.as_str());
                assert(s@ =~= old(s)@ + blur_suffix(blur));
            } else {
                assert(s@ =~= old(s)@ + blur_suffix(blur));
            }
        },
        None => {
            assert(s@ =~= old(s)@ + blur_suffix(blur));
        },
    }
}

/// The description of a prepared segment: everything its content depends on.
pub open spec fn segment_description(
    source: Seq<char>,
    w: int,
    h: int,
    fps: int,
    segment: SegmentPlan,
    blur: Option<Blur>,
    prefer_hw: bool,
) -> Seq<char> {
    source + "-"@ + decimal(w) + "x"@ + decimal(h) + "-"@ + decimal(fps) + "-start"@ + decimal(
        segment.start_within_ms as int,
    ) + "-len"@ + decimal(segment.take_ms as int) + blur_suffix(blur) + "-hw"@ + bool_text(
        prefer_hw,
    )
}

/// The description of a looped still image.
pub open spec fn image_description(
    source: Seq<char>,
    w: int,
    h: int,
    fps: int,
    duration_ms: int,
    blur: Option<Blur>,
    prefer_hw: bool,
) -> Seq<char> {
    source + "-"@ + decimal(w) + "x"@ + decimal(h) + "-"@ + decimal(fps) + "-dur"@ + shortest_text(
        duration_ms,
    ) + blur_suffix(blur) + "-hw"@ + bool_text(prefer_hw)
}

/// The file name of a cached artifact.
pub open spec fn cache_file_name(prefix: Seq<char>, key: Seq<char>, w: int, h: int, fps: int) -> Seq<
    char,
> {
    prefix + key + "-"@ + decimal(w) + "x"@ + decimal(h) + "-"@ + decimal(fps) + ".mp4"@
}

/// Builds the file name of a cached artifact.
fn build_cache_file_name(prefix: &str, key: &str, w: i32, h: i32, fps: i32) -> (name: String)
    ensures
        name@ == cache_file_name(prefix@, key@, w as int, h as int, fps as int),
{
    let mut name = String::from_str(prefix);
    name.append(key);
    name.append("-");
    push_integer(&mut name, w as i64);
    name.append("x");
    push_integer(&mut name, h as i64);
    name.append("-");
    push_integer(&mut name, fps as i64);
    name.append(".mp4");
    name
}

/// Starts a description: the source and the output format.
fn describe_format(source: &str, w: i32, h: i32, fps: i32) -> (s: String)
    ensures
        s@ == source@ + "-"@ + decimal(w as int) + "x"@ + decimal(h as int) + "-"@ + decimal(
            fps as int,
        ),
{
    let mut s = String::from_str(source);
    s.append("-");
    push_integer(&mut s, w as i64);
    s.append("x");
    push_integer(&mut s, h as i64);
    s.append("-");
    push_integer(&mut s, fps as i64);
    s
}

/// The file name under which a prepared segment is cached.
pub open spec fn segment_file_name(
    source: Seq<char>,
    w: int,
    h: int,
    fps: int,
    segment: SegmentPlan,
    blur: Option<Blur>,
    prefer_hw: bool,
) -> Seq<char> {
    cache_file_name(
        "bg-"@,
        cache_key_of(segment_description(source, w, h, fps, segment, blur, prefer_hw)),
        w,
        h,
        fps,
    )
}

/// The file name under which a looped still image is cached.
pub open spec fn image_file_name(
    source: Seq<char>,
    w: int,
    h: int,
    fps: int,
    duration_ms: int,
    blur: Option<Blur>,
    prefer_hw: bool,
) -> Seq<char> {
    cache_file_name(
        "img-bg-"@,
        cache_key_of(image_description(source, w, h, fps, duration_ms, blur, prefer_hw)),
        w,
        h,
        fps,
    )
}

/// Names the cache file of a prepared segment.
pub fn name_segment(
    source: &str,
    w: i32,
    h: i32,
    fps: i32,
    segment: SegmentPlan,
    blur: Option<Blur>,
    prefer_hw: bool,
) -> (name: String)
    ensures
        name@ == segment_file_name(source@, w as int, h as int, fps as int, segment, blur, prefer_hw),
{
    let mut description = describe_format(source, w, h, fps);
    description.append("-start");
    push_natural_u64(&mut description, segment.start_within_ms);
    description.append("-len");
    push_natural_u64(&mut description, segment.take_ms);
    push_blur_suffix(&mut description, blur);
    description.append("-hw");
    push_bool(&mut description, prefer_hw);
    let key = cache_key(description.as_str());
    build_cache_file_name("bg-", key.as_str(), w, h, fps)
}

/// Appends the decimal rendering of `n`.
fn push_natural_u64(s: &mut String, n: u64)
    ensures
        final(s)@ == old(s)@ + decimal(n as int),
{
    crate::text::push_natural(s, n as u128);
}

/// Names the cache file of a looped still image.
pub fn name_image(
    source: &str,
    w: i32,
    h: i32,
    fps: i32,
    duration_ms: i64,
    blur: Option<Blur>,
    prefer_hw: bool,
) -> (name: String)
    ensures
        name@ == image_file_name(
            source@,
            w as int,
            h as int,
            fps as int,
            duration_ms as int,
            blur,
            prefer_hw,
        ),
{
    let mut description = describe_format(source, w, h, fps);
    description.append("-dur");
    let duration = shortest_to_string(duration_ms as i128);
    description.append(duration.as_str());
    push_blur_suffix(&mut description, blur);
    description.append("-hw");
    push_bool(&mut description, prefer_hw);
    let key = cache_key(description.as_str());
    build_cache_file_name("img-bg-", key.as_str(), w, h, fps)
}

/// A prepared segment: the part of a clip, where it comes from, and the name
/// of its cache file.
#[derive(Debug, Clone)]
pub struct PreparedSegment {
    /// The part of the clip.
    pub part: SegmentPlan,
    /// The path of the clip.
    pub source: String,
    /// The name of the cache file.
    pub file_name: String,
}

/// What a [`PreparedSegment`] holds.
pub struct PreparedModel {
    /// The part of the clip.
    pub part: SegmentPlan,
    /// The path of the clip.
    pub source: Seq<char>,
    /// The name of the cache file.
    pub file_name: Seq<char>,
}

impl View for PreparedSegment {
    type V = PreparedModel;

    open spec fn view(&self) -> PreparedModel {
        PreparedModel { part: self.part, source: self.source@, file_name: self.file_name@ }
    }
}

/// How the background is prepared.
#[derive(Debug, Clone)]
pub enum BackgroundPlan {
    /// The playlist is one still image: loop it for the given time.
    Image { source: String, duration_ms: i64, file_name: String },
    /// The playlist is made of clips: prepare these segments.
    Clips { segments: Vec<PreparedSegment> },
}

/// What a [`BackgroundPlan`] holds.
pub enum BackgroundModel {
    /// The playlist is one still image: loop it for the given time.
    Image { source: Seq<char>, duration_ms: int, file_name: Seq<char> },
    /// The playlist is made of clips: prepare these segments.
    Clips { segments: Seq<PreparedModel> },
}

impl View for BackgroundPlan {
    type V = BackgroundModel;

    open spec fn view(&self) -> BackgroundModel {
        match *self {
            BackgroundPlan::Image { source, duration_ms, file_name } => BackgroundModel::Image {
                source: source@,
                duration_ms: duration_ms as int,
                file_name: file_name@,
            },
            BackgroundPlan::Clips { segments } => BackgroundModel::Clips {
                segments: segments@.map_values(|s: PreparedSegment| s@),
            },
        }
    }
}

/// Whether the playlist is a single still image.
pub open spec fn single_image(clips: Seq<Clip>) -> bool {
    clips.len() == 1 && has_image_extension(lowercase(clips[0].path@))
}

/// The time for which a still image is looped: the window's duration where
/// there is one, else thirty seconds.
pub open spec fn image_loop_ms(duration_ms: Option<i32>) -> int {
    match duration_ms {
        Some(d) => d as int,
        None => DEFAULT_IMAGE_MS as int,
    }
}

/// The prepared segment of a planned part.
pub open spec fn prepared_segment(
    clips: Seq<Clip>,
    part: SegmentPlan,
    w: int,
    h: int,
    fps: int,
    prefer_hw: bool,
    blur: Option<Blur>,
) -> PreparedModel {
    let source = clips[part.source_index as int].path@;
    PreparedModel {
        part,
        source,
        file_name: segment_file_name(source, w, h, fps, part, blur, prefer_hw),
    }
}

/// The plan for a playlist and a window.
pub open spec fn background_plan(
    clips: Seq<Clip>,
    w: int,
    h: int,
    fps: int,
    prefer_hw: bool,
    start_ms: int,
    duration_ms: Option<i32>,
    blur: Option<Blur>,
) -> BackgroundModel {
    if single_image(clips) {
        BackgroundModel::Image {
            source: clips[0].path@,
            duration_ms: image_loop_ms(duration_ms),
            file_name: image_file_name(
                clips[0].path@,
                w,
                h,
                fps,
                image_loop_ms(duration_ms),
                blur,
                prefer_hw,
            ),
        }
    } else {
        let parts = planned_segments(
            clip_durations(clips),
            start_ms,
            duration_ms,
            clips.len() as int,
        );
        BackgroundModel::Clips {
            segments: Seq::new(
                parts.len(),
                |i: int| prepared_segment(clips, parts[i], w, h, fps, prefer_hw, blur),
            ),
        }
    }
}

/// Plans the preparation of the background for a window.
///
/// A playlist of one still image is looped for the window's duration. Any
/// other playlist is walked clip by clip, and each clip that the window meets
/// gives one prepared segment, named after everything its content depends on.
pub fn preprocess_background_videos(
    clips: &Vec<Clip>,
    w: i32,
    h: i32,
    fps: i32,
    prefer_hw: bool,
    start_time_ms: i32,
    duration_ms: Option<i32>,
    blur: Option<Blur>,
) -> (plan: BackgroundPlan)
    ensures
        plan@ == background_plan(
            clips@,
            w as int,
            h as int,
            fps as int,
            prefer_hw,
            start_time_ms as int,
            duration_ms,
            blur,
        ),
{
    if clips.len() == 1 && is_image_file(clips[0].path.as_str()) {
        let loop_ms: i64 = match duration_ms {
            Some(d) => d as i64,
            None => DEFAULT_IMAGE_MS,
        };
        let file_name = name_image(clips[0].path.as_str(), w, h, fps, loop_ms, blur, prefer_hw);
        return BackgroundPlan::Image { source: clips[0].path.clone(), duration_ms: loop_ms, file_name };
    }
    let mut durations: Vec<u64> = Vec::new();
    let mut k: usize = 0;
    while k < clips.len()
        invariant
            k <= clips.len(),
            durations@ == clip_durations(clips@).take(k as int),
        decreases clips.len() - k,
    {
        durations.push(clips[k].duration_ms);
        assert(durations@ =~= clip_durations(clips@).take(k + 1));
        k += 1;
    }
    assert(durations@ =~= clip_durations(clips@));
    let parts = plan_segments(&durations, start_time_ms, duration_ms);
    let mut segments: Vec<PreparedSegment> = Vec::new();
    let mut i: usize = 0;
    while i < parts.len()
        invariant
            i <= parts.len(),
            durations@.len() == clips@.len(),
            forall|j: int| 0 <= j < parts@.len() ==> (#[trigger] parts@[j]).source_index < durations@.len(),
            segments@.len() == i,
            forall|j: int|
                0 <= j < i ==> (#[trigger] segments@[j])@ == prepared_segment(
                    clips@,
                    parts@[j],
                    w as int,
                    h as int,
                    fps as int,
                    prefer_hw,
                    blur,
                ),
        decreases parts.len() - i,
    {
        let part = parts[i];
        let source = clips[part.source_index].path.clone();
        let file_name = name_segment(source.as_str(), w, h, fps, part, blur, prefer_hw);
        segments.push(PreparedSegment { part, source, file_name });
        i += 1;
    }
    let plan = BackgroundPlan::Clips { segments };
    proof {
        let expected = background_plan(
            clips@,
            w as int,
            h as int,
            fps as int,
            prefer_hw,
            start_time_ms as int,
            duration_ms,
            blur,
        );
        assert(plan@->Clips_segments =~= expected->Clips_segments);
    }
    plan
}

/// What to do about a cache file.
#[derive(Debug, Clone, Copy, PartialEq, Eq, Structural)]
pub enum CacheAction {
    /// The file is there: use it as it is.
    Reuse,
    /// The file is missing: produce it.
    Encode,
}

/// A cache file that exists is reused; one that is missing is produced.
pub fn cache_action(present: bool) -> (action: CacheAction)
    ensures
        present ==> action == CacheAction::Reuse,
        !present ==> action == CacheAction::Encode,
{
    if present {
        CacheAction::Reuse
    } else {
        CacheAction::Encode
    }
}

/// The path that stands for a segment in the end: the cache file where it
/// was found or produced, else the clip itself.
pub fn prepared_path(segment: &PreparedSegment, cache_path: &str, available: bool) -> (path: String)
    ensures
        path@ == if available {
            cache_path@
        } else {
            segment.source@
        },
{
    if available {
        String::from_str(cache_path)
    } else {
        segment.source.clone()
    }
}

/// The background of a looped still image in the end: the cache file where it
/// was found or produced, else nothing.
pub fn prepared_image(cache_path: &str, available: bool) -> (paths: Vec<String>)
    ensures
        texts(paths@) == if available {
            seq![cache_path@]
        } else {
            Seq::<Seq<char>>::empty()
        },
{
    let mut paths: Vec<String> = Vec::new();
    assert(texts(paths@) =~= Seq::<Seq<char>>::empty());
    if available {
        push_text(&mut paths, cache_path);
    }
    paths
}

/// The filter that fits a clip into the frame: scaled down with its aspect
/// kept, padded with black, blurred where asked, at a constant frame rate.
pub open spec fn fit_filter(w: int, h: int, fps: int, blur: Option<Blur>) -> Seq<char> {
    let scale = "scale=w="@ + decimal(w) + ":h="@ + decimal(h)
        + ":force_original_aspect_ratio=decrease"@;
    let pad = "pad="@ + decimal(w) + ":"@ + decimal(h) + ":(ow-iw)/2:(oh-ih)/2:color=black"@;
    let rate = "fps="@ + decimal(fps);
    if blurs(blur) {
        join(seq![scale, pad, "gblur=sigma="@ + sigma_text(blur), rate, "setsar=1"@], ","@)
    } else {
        join(seq![scale, pad, rate, "setsar=1"@], ","@)
    }
}

/// Appends the blur filter to a list of filters where a blur is asked for.
fn push_blur_filter(parts: &mut Vec<String>, blur: Option<Blur>)
    ensures
        texts(final(parts)@) == if blurs(blur) {
            texts(old(parts)@).push("gblur=sigma="@ + sigma_text(blur))
        } else {
            texts(old(parts)@)
        },
{
    match blur {
        Some(b) => {
            if b.sigma_thousandths > 0 {
                let mut filter = String::from_str("gblur=sigma=");
                let sigma = shortest_to_string(b.sigma_thousandths as i128);
                filter.append(sigma.as_str());
                push_string(parts, filter);
            }
        },
        None => {},
    }
}

/// Builds [`fit_filter`].
pub fn build_fit_filter(w: i32, h: i32, fps: i32, blur: Option<Blur>) -> (filter: String)
    ensures
        filter@ == fit_filter(w as int, h as int, fps as int, blur),
{
    let mut parts: Vec<String> = Vec::new();
    assert(texts(parts@) =~= Seq::<Seq<char>>::empty());
    let mut scale = String::from_str("scale=w=");
    push_integer(&mut scale, w as i64);
    scale.append(":h=");
    push_integer(&mut scale, h as i64);
    scale.append(":force_original_aspect_ratio=decrease");
    push_string(&mut parts, scale);
    let mut pad = String::from_str("pad=");
    push_integer(&mut pad, w as i64);
    pad.append(":");
    push_integer(&mut pad, h as i64);
    pad.append(":(ow-iw)/2:(oh-ih)/2:color=black");
    push_string(&mut parts, pad);
    push_blur_filter(&mut parts, blur);
    let mut rate = String::from_str("fps=");
    push_integer(&mut rate, fps as i64);
    push_string(&mut parts, rate);
    push_text(&mut parts, "setsar=1");
    proof {
        let scale = "scale=w="@ + decimal(w as int) + ":h="@ + decimal(h as int)
            + ":force_original_aspect_ratio=decrease"@;
        let pad = "pad="@ + decimal(w as int) + ":"@ + decimal(h as int)
            + ":(ow-iw)/2:(oh-ih)/2:color=black"@;
        let rate = "fps="@ + decimal(fps as int);
        if blurs(blur) {
            assert(texts(parts@) =~= seq![
                scale,
                pad,
                "gblur=sigma="@ + sigma_text(blur),
                rate,
                "setsar=1"@,
            ]);
        } else {
            assert(texts(parts@) =~= seq![scale, pad, rate, "setsar=1"@]);
        }
    }
    join_strings(&parts, ",")
}

/// The arguments that seek or cut at a time given in milliseconds: none
/// where no time is given.
pub open spec fn time_args(flag: Seq<char>, ms: Option<u64>) -> Seq<Seq<char>> {
    match ms {
        Some(t) => seq![flag, millis_text(t as int)],
        None => Seq::empty(),
    }
}

/// Appends [`time_args`].
fn push_time_args(args: &mut Vec<String>, flag: &str, ms: Option<u64>)
    ensures
        texts(final(args)@) == texts(old(args)@) + time_args(flag@, ms),
{
    match ms {
        Some(t) => {
            push_text(args, flag);
            push_string(args, millis_to_string(t as i128));
            assert(texts(args@) =~= texts(old(args)@) + time_args(flag@, ms));
        },
        None => {
            assert(texts(args@) =~= texts(old(args)@) + time_args(flag@, ms));
        },
    }
}

/// The arguments of the command that prepares one segment of a clip.
///
/// The seek stands before the input and the cut after it; the clip is fitted
/// into the frame, loses its audio, and is encoded as the plan says with a
/// key frame every two seconds.
pub open spec fn preprocess_args(
    src: Seq<char>,
    dst: Seq<char>,
    w: int,
    h: int,
    fps: int,
    plan: PlanModel,
    start_ms: Option<u64>,
    duration_ms: Option<u64>,
    blur: Option<Blur>,
) -> Seq<Seq<char>> {
    time_args("-ss"@, start_ms) + seq![
        "-y"@,
        "-hide_banner"@,
        "-loglevel"@,
        "error"@,
        "-fflags"@,
        "+genpts"@,
        "-avoid_negative_ts"@,
        "make_zero"@,
        "-vsync"@,
        "cfr"@,
        "-i"@,
        src,
    ] + time_args("-t"@, duration_ms) + seq![
        "-an"@,
        "-vf"@,
        fit_filter(w, h, fps, blur),
        "-pix_fmt"@,
        "yuv420p"@,
        "-c:v"@,
        plan.codec,
        "-g"@,
        decimal(2 * fps),
    ] + preset_args(plan.preset) + plan.params + seq![dst]
}

/// Builds the arguments of the command that prepares one segment of a clip.
pub fn ffmpeg_preprocess_video(
    src: &str,
    dst: &str,
    w: i32,
    h: i32,
    fps: i32,
    plan: &EncoderPlan,
    start_ms: Option<u64>,
    duration_ms: Option<u64>,
    blur: Option<Blur>,
) -> (args: Vec<String>)
    ensures
        texts(args@) == preprocess_args(
            src@,
            dst@,
            w as int,
            h as int,
            fps as int,
            plan@,
            start_ms,
            duration_ms,
            blur,
        ),
{
    let mut args: Vec<String> = Vec::new();
    assert(texts(args@) =~= Seq::<Seq<char>>::empty());
    push_time_args(&mut args, "-ss", start_ms);
    push_text(&mut args, "-y");
    push_text(&mut args, "-hide_banner");
    push_text(&mut args, "-loglevel");
    push_text(&mut args, "error");
    push_text(&mut args, "-fflags");
    push_text(&mut args, "+genpts");
    push_text(&mut args, "-avoid_negative_ts");
    push_text(&mut args, "make_zero");
    push_text(&mut args, "-vsync");
    push_text(&mut args, "cfr");
    push_text(&mut args, "-i");
    push_text(&mut args, src);
    push_time_args(&mut args, "-t", duration_ms);
    push_text(&mut args, "-an");
    push_text(&mut args, "-vf");
    push_string(&mut args, build_fit_filter(w, h, fps, blur));
    push_text(&mut args, "-pix_fmt");
    push_text(&mut args, "yuv420p");
    push_text(&mut args, "-c:v");
    push_text(&mut args, plan.codec.as_str());
    push_text(&mut args, "-g");
    push_string(&mut args, crate::text::integer_to_string(2 * (fps as i64)));
    push_preset(&mut args, plan);
    extend_texts(&mut args, &plan.params);
    push_text(&mut args, dst);
    assert(texts(args@) =~= preprocess_args(
        src@,
        dst@,
        w as int,
        h as int,
        fps as int,
        plan@,
        start_ms,
        duration_ms,
        blur,
    ));
    args
}

/// The filter that fills the frame with a still image: scaled up with its
/// aspect kept, cropped about the centre, blurred where asked.
pub open spec fn fill_filter(w: int, h: int, blur: Option<Blur>) -> Seq<char> {
    let scale = "scale="@ + decimal(w) + ":"@ + decimal(h)
        + ":force_original_aspect_ratio=increase"@;
    let crop = "crop="@ + decimal(w) + ":"@ + decimal(h) + ":(in_w-"@ + decimal(w) + ")/2:(in_h-"@
        + decimal(h) + ")/2"@;
    if blurs(blur) {
        join(seq![scale, crop, "gblur=sigma="@ + sigma_text(blur)], ","@)
    } else {
        join(seq![scale, crop], ","@)
    }
}

/// Builds [`fill_filter`].
pub fn build_fill_filter(w: i32, h: i32, blur: Option<Blur>) -> (filter: String)
    ensures
        filter@ == fill_filter(w as int, h as int, blur),
{
    let mut parts: Vec<String> = Vec::new();
    assert(texts(parts@) =~= Seq::<Seq<char>>::empty());
    let mut scale = String::from_str("scale=");
    push_integer(&mut scale, w as i64);
    scale.append(":");
    push_integer(&mut scale, h as i64);
    scale.append(":force_original_aspect_ratio=increase");
    push_string(&mut parts, scale);
    let mut crop = String::from_str("crop=");
    push_integer(&mut crop, w as i64);
    crop.append(":");
    push_integer(&mut crop, h as i64);
    crop.append(":(in_w-");
    push_integer(&mut crop, w as i64);
    crop.append(")/2:(in_h-");
    push_integer(&mut crop, h as i64);
    crop.append(")/2");
    push_string(&mut parts, crop);
    push_blur_filter(&mut parts, blur);
    proof {
        let scale = "scale="@ + decimal(w as int) + ":"@ + decimal(h as int)
            + ":force_original_aspect_ratio=increase"@;
        let crop = "crop="@ + decimal(w as int) + ":"@ + decimal(h as int) + ":(in_w-"@ + decimal(
            w as int,
        ) + ")/2:(in_h-"@ + decimal(h as int) + ")/2"@;
        if blurs(blur) {
            assert(texts(parts@) =~= seq![scale, crop, "gblur=sigma="@ + sigma_text(blur)]);
        } else {
            assert(texts(parts@) =~= seq![scale, crop]);
        }
    }
    join_strings(&parts, ",")
}

/// The quality arguments that go with a codec when a still image is looped:
/// a constant rate factor for `libx264`, a constant quality for an NVIDIA
/// encoder, nothing for any other.
pub open spec fn image_quality_args(codec: Seq<char>) -> Seq<Seq<char>> {
    if codec == "libx264"@ {
        seq!["-crf"@, "23"@]
    } else if contains_text(codec, "nvenc"@) {
        seq!["-cq"@, "23"@]
    } else {
        Seq::empty()
    }
}

/// The arguments of the command that turns a still image into a video of the
/// given length.
pub open spec fn image_video_args(
    image_path: Seq<char>,
    output_path: Seq<char>,
    w: int,
    h: int,
    fps: int,
    duration_ms: int,
    plan: PlanModel,
    blur: Option<Blur>,
) -> Seq<Seq<char>> {
    seq![
        "-y"@,
        "-hide_banner"@,
        "-loglevel"@,
        "info"@,
        "-fflags"@,
        "+genpts"@,
        "-avoid_negative_ts"@,
        "make_zero"@,
        "-vsync"@,
        "cfr"@,
        "-loop"@,
        "1"@,
        "-i"@,
        image_path,
        "-vf"@,
        fill_filter(w, h, blur),
        "-c:v"@,
        plan.codec,
        "-r"@,
        decimal(fps),
        "-g"@,
        decimal(2 * fps),
        "-t"@,
        seconds_text(duration_ms, 1000),
    ] + preset_args(plan.preset) + plan.params + image_quality_args(plan.codec) + seq![output_path]
}

/// Builds the arguments of the command that turns a still image into a video.
pub fn create_video_from_image(
    image_path: &str,
    output_path: &str,
    w: i32,
    h: i32,
    fps: i32,
    duration_ms: i64,
    plan: &EncoderPlan,
    blur: Option<Blur>,
) -> (args: Vec<String>)
    ensures
        texts(args@) == image_video_args(
            image_path@,
            output_path@,
            w as int,
            h as int,
            fps as int,
            duration_ms as int,
            plan@,
            blur,
        ),
{
    let mut args: Vec<String> = Vec::new();
    assert(texts(args@) =~= Seq::<Seq<char>>::empty());
    push_text(&mut args, "-y");
    push_text(&mut args, "-hide_banner");
    push_text(&mut args, "-loglevel");
    push_text(&mut args, "info");
    push_text(&mut args, "-fflags");
    push_text(&mut args, "+genpts");
    push_text(&mut args, "-avoid_negative_ts");
    push_text(&mut args, "make_zero");
    push_text(&mut args, "-vsync");
    push_text(&mut args, "cfr");
    push_text(&mut args, "-loop");
    push_text(&mut args, "1");
    push_text(&mut args, "-i");
    push_text(&mut args, image_path);
    push_text(&mut args, "-vf");
    push_string(&mut args, build_fill_filter(w, h, blur));
    push_text(&mut args, "-c:v");
    push_text(&mut args, plan.codec.as_str());
    push_text(&mut args, "-r");
    push_string(&mut args, crate::text::integer_to_string(fps as i64));
    push_text(&mut args, "-g");
    push_string(&mut args, crate::text::integer_to_string(2 * (fps as i64)));
    push_text(&mut args, "-t");
    push_string(&mut args, seconds_to_string(duration_ms as i128, 1000));
    push_preset(&mut args, plan);
    extend_texts(&mut args, &plan.params);
    let ghost before = texts(args@);
    if same_text(plan.codec.as_str(), "libx264") {
        push_text(&mut args, "-crf");
        push_text(&mut args, "23");
    } else {
        let codec = chars_of(plan.codec.as_str());
        if text_contains(&codec, "nvenc") {
            push_text(&mut args, "-cq");
            push_text(&mut args, "23");
        }
    }
    assert(texts(args@) =~= before + image_quality_args(plan@.codec));
    push_text(&mut args, output_path);
    assert(texts(args@) =~= image_video_args(
        image_path@,
        output_path@,
        w as int,
        h as int,
        fps as int,
        duration_ms as int,
        plan@,
        blur,
    ));
    args
}

/// What closes a description: the blur, if any, and the preference for
/// hardware encoding.
pub open spec fn description_end(blur: Option<Blur>, prefer_hw: bool) -> Seq<char> {
    blur_suffix(blur) + ("-hw"@ + bool_text(prefer_hw))
}

/// The end of a description tells its blur and its preference apart.
pub proof fn lemma_description_end_injective(
    blur_a: Option<Blur>,
    hw_a: bool,
    blur_b: Option<Blur>,
    hw_b: bool,
)
    requires
        description_end(blur_a, hw_a) == description_end(blur_b, hw_b),
    ensures
        hw_a == hw_b,
        blurs(blur_a) == blurs(blur_b),
        blurs(blur_a) ==> blur_a->0.sigma_thousandths == blur_b->0.sigma_thousandths,
{
    reveal_strlit("-hw");
    reveal_strlit("-blur");
    reveal_strlit("true");
    reveal_strlit("false");
    let end_a = "-hw"@ + bool_text(hw_a);
    let end_b = "-hw"@ + bool_text(hw_b);
    let whole_a = description_end(blur_a, hw_a);
    let whole_b = description_end(blur_b, hw_b);
    assert(end_a[0] == '-' && end_a[1] == 'h');
    assert(end_b[0] == '-' && end_b[1] == 'h');
    if blurs(blur_a) {
        let tail_a = sigma_text(blur_a) + end_a;
        assert(whole_a =~= "-blur"@ + tail_a);
        assert(whole_a[1] == 'b');
        if blurs(blur_b) {
            let tail_b = sigma_text(blur_b) + end_b;
            assert(whole_b =~= "-blur"@ + tail_b);
            lemma_same_prefix("-blur"@, tail_a, tail_b);
            crate::text::lemma_shortest_split(
                blur_a->0.sigma_thousandths as nat,
                end_a,
                blur_b->0.sigma_thousandths as nat,
                end_b,
            );
        } else {
            assert(whole_b =~= end_b);
            assert(whole_b[1] == 'h');
        }
    } else {
        assert(whole_a =~= end_a);
        if blurs(blur_b) {
            assert(whole_b =~= "-blur"@ + (sigma_text(blur_b) + end_b));
            assert(whole_b[1] == 'b');
            assert(whole_a[1] == 'h');
        } else {
            assert(whole_b =~= end_b);
        }
    }
    assert(end_a == end_b);
    lemma_same_prefix("-hw"@, bool_text(hw_a), bool_text(hw_b));
    assert(bool_text(hw_a)[0] == bool_text(hw_b)[0]);
}

/// What a description tells after the source, read from the left: each
/// number is followed by the text that separates it from the next.
pub open spec fn description_body(
    w: int,
    h: int,
    fps: int,
    part: SegmentPlan,
    blur: Option<Blur>,
    prefer_hw: bool,
) -> Seq<char> {
    decimal(w) + ("x"@ + (decimal(h) + ("-"@ + (decimal(fps) + ("-start"@ + (decimal(
        part.start_within_ms as int,
    ) + ("-len"@ + (decimal(part.take_ms as int) + description_end(blur, prefer_hw)))))))))
}

/// A description is its source, a dash, and its body.
pub proof fn lemma_description_shape(
    source: Seq<char>,
    w: int,
    h: int,
    fps: int,
    part: SegmentPlan,
    blur: Option<Blur>,
    prefer_hw: bool,
)
    ensures
        segment_description(source, w, h, fps, part, blur, prefer_hw) == (source + "-"@)
            + description_body(w, h, fps, part, blur, prefer_hw),
{
    let left_0 = source + "-"@;
    let end = description_end(blur, prefer_hw);
    let t = decimal(part.take_ms as int);
    let s = decimal(part.start_within_ms as int);
    let left_1 = left_0 + decimal(w);
    let left_2 = left_1 + "x"@;
    let left_3 = left_2 + decimal(h);
    let left_4 = left_3 + "-"@;
    let left_5 = left_4 + decimal(fps);
    let left_6 = left_5 + "-start"@;
    let left_7 = left_6 + s;
    let left_8 = left_7 + "-len"@;
    let left_9 = left_8 + t;
    assert(segment_description(source, w, h, fps, part, blur, prefer_hw) =~= left_9 + end);
    let right_9 = t + end;
    assert(left_9 + end =~= left_8 + right_9);
    let right_8 = "-len"@ + right_9;
    assert(left_8 + right_9 =~= left_7 + right_8);
    let right_7 = s + right_8;
    assert(left_7 + right_8 =~= left_6 + right_7);
    let right_6 = "-start"@ + right_7;
    assert(left_6 + right_7 =~= left_5 + right_6);
    let right_5 = decimal(fps) + right_6;
    assert(left_5 + right_6 =~= left_4 + right_5);
    let right_4 = "-"@ + right_5;
    assert(left_4 + right_5 =~= left_3 + right_4);
    let right_3 = decimal(h) + right_4;
    assert(left_3 + right_4 =~= left_2 + right_3);
    let right_2 = "x"@ + right_3;
    assert(left_2 + right_3 =~= left_1 + right_2);
    let right_1 = decimal(w) + right_2;
    assert(left_1 + right_2 =~= left_0 + right_1);
}

/// A description's end begins with a dash.
pub proof fn lemma_description_end_starts(blur: Option<Blur>, prefer_hw: bool)
    ensures
        description_end(blur, prefer_hw).len() > 0,
        description_end(blur, prefer_hw)[0] == '-',
{
    reveal_strlit("-hw");
    reveal_strlit("-blur");
    let end = description_end(blur, prefer_hw);
    if blurs(blur) {
        assert(end =~= "-blur"@ + (sigma_text(blur) + ("-hw"@ + bool_text(prefer_hw))));
        assert(end[0] == "-blur"@[0]);
    } else {
        assert(end =~= "-hw"@ + bool_text(prefer_hw));
        assert(end[0] == "-hw"@[0]);
    }
}

/// A number that follows a fixed text and is followed by something other
/// than a digit can be read off: two texts of this shape that are equal hold
/// the same number and the same remainder.
pub proof fn lemma_field_split(
    before: Seq<char>,
    x: int,
    rest_x: Seq<char>,
    y: int,
    rest_y: Seq<char>,
)
    requires
        before + (decimal(x) + rest_x) == before + (decimal(y) + rest_y),
        rest_x.len() > 0 && !is_digit(rest_x[0]),
        rest_y.len() > 0 && !is_digit(rest_y[0]),
    ensures
        x == y,
        rest_x == rest_y,
{
    lemma_same_prefix(before, decimal(x) + rest_x, decimal(y) + rest_y);
    crate::text::lemma_decimal_split(x, rest_x, y, rest_y);
}

/// Two prepared segments of one source are described alike only if they
/// agree in all that a description tells: the frame size, the frame rate,
/// where the segment starts and how long it is, whether and how much it is
/// blurred, and the preference for hardware encoding. Descriptions, and so
/// the inputs of the cache key, never collide within one source; two keys can
/// still be equal where the digests of two descriptions start alike.
pub proof fn lemma_description_injective(
    source: Seq<char>,
    w_a: int,
    h_a: int,
    fps_a: int,
    part_a: SegmentPlan,
    blur_a: Option<Blur>,
    hw_a: bool,
    w_b: int,
    h_b: int,
    fps_b: int,
    part_b: SegmentPlan,
    blur_b: Option<Blur>,
    hw_b: bool,
)
    requires
        segment_description(source, w_a, h_a, fps_a, part_a, blur_a, hw_a) == segment_description(
            source,
            w_b,
            h_b,
            fps_b,
            part_b,
            blur_b,
            hw_b,
        ),
    ensures
        w_a == w_b,
        h_a == h_b,
        fps_a == fps_b,
        part_a.start_within_ms == part_b.start_within_ms,
        part_a.take_ms == part_b.take_ms,
        hw_a == hw_b,
        blurs(blur_a) == blurs(blur_b),
        blurs(blur_a) ==> blur_a->0.sigma_thousandths == blur_b->0.sigma_thousandths,
{
    lemma_description_shape(source, w_a, h_a, fps_a, part_a, blur_a, hw_a);
    lemma_description_shape(source, w_b, h_b, fps_b, part_b, blur_b, hw_b);
    lemma_description_end_starts(blur_a, hw_a);
    lemma_description_end_starts(blur_b, hw_b);
    lemma_body_injective(w_a, h_a, fps_a, part_a, blur_a, hw_a, w_b, h_b, fps_b, part_b, blur_b, hw_b, source + "-"@);
    lemma_description_end_injective(blur_a, hw_a, blur_b, hw_b);
}

/// Two bodies that follow the same text and are equal hold the same numbers
/// and the same end.
proof fn lemma_body_injective(
    w_a: int,
    h_a: int,
    fps_a: int,
    part_a: SegmentPlan,
    blur_a: Option<Blur>,
    hw_a: bool,
    w_b: int,
    h_b: int,
    fps_b: int,
    part_b: SegmentPlan,
    blur_b: Option<Blur>,
    hw_b: bool,
    head: Seq<char>,
)
    requires
        head + description_body(w_a, h_a, fps_a, part_a, blur_a, hw_a) == head + description_body(
            w_b,
            h_b,
            fps_b,
            part_b,
            blur_b,
            hw_b,
        ),
        description_end(blur_a, hw_a).len() > 0 && description_end(blur_a, hw_a)[0] == '-',
        description_end(blur_b, hw_b).len() > 0 && description_end(blur_b, hw_b)[0] == '-',
    ensures
        w_a == w_b,
        h_a == h_b,
        fps_a == fps_b,
        part_a.start_within_ms == part_b.start_within_ms,
        part_a.take_ms == part_b.take_ms,
        description_end(blur_a, hw_a) == description_end(blur_b, hw_b),
{
    reveal_strlit("-");
    reveal_strlit("x");
    reveal_strlit("-start");
    reveal_strlit("-len");
    assert(!is_digit('x') && !is_digit('-'));
    let end_a = description_end(blur_a, hw_a);
    let end_b = description_end(blur_b, hw_b);
    let len_a = "-len"@ + (decimal(part_a.take_ms as int) + end_a);
    let len_b = "-len"@ + (decimal(part_b.take_ms as int) + end_b);
    let from_a = "-start"@ + (decimal(part_a.start_within_ms as int) + len_a);
    let from_b = "-start"@ + (decimal(part_b.start_within_ms as int) + len_b);
    let dash_a = "-"@ + (decimal(fps_a) + from_a);
    let dash_b = "-"@ + (decimal(fps_b) + from_b);
    let by_a = "x"@ + (decimal(h_a) + dash_a);
    let by_b = "x"@ + (decimal(h_b) + dash_b);
    assert(by_a[0] == 'x' && by_b[0] == 'x');
    lemma_field_split(head, w_a, by_a, w_b, by_b);
    assert(dash_a[0] == '-' && dash_b[0] == '-');
    lemma_field_split("x"@, h_a, dash_a, h_b, dash_b);
    assert(from_a[0] == '-' && from_b[0] == '-');
    lemma_field_split("-"@, fps_a, from_a, fps_b, from_b);
    assert(len_a[0] == '-' && len_b[0] == '-');
    lemma_field_split(
        "-start"@,
        part_a.start_within_ms as int,
        len_a,
        part_b.start_within_ms as int,
        len_b,
    );
    lemma_field_split("-len"@, part_a.take_ms as int, end_a, part_b.take_ms as int, end_b);
}

} // verus!
