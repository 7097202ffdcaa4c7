//! Subtitle frames: pre-rendered images whose file name holds the onset in
//! milliseconds. The frames of a directory are picked by their extension,
//! read from their names and put in the order of their onsets.

use crate::text::chars_of;
use crate::text::lowercase;
use crate::text::parse_i64;
use crate::text::parse_in_range;
use crate::text::same_text;
use crate::text::string_of;
use crate::text::to_lowercase;
use vstd::prelude::*;
use crate::errors::InputError;
use vstd::seq_lib::to_multiset_insert;

verus! {

/// A subtitle frame: an image file and the time at which it appears.
#[derive(Debug, Clone, PartialEq, Eq)]
pub struct SubtitleFrame {
    /// The onset in milliseconds.
    pub onset_ms: i32,
    /// The name of the image file.
    pub file_name: String,
}

/// The position of the last `.` in a file name, if it has one.
pub open spec fn last_dot(name: Seq<char>) -> Option<int>
    decreases name.len(),
{
    if name.len() == 0 {
        None
    } else if name.last() == '.' {
        Some(name.len() - 1)
    } else {
        last_dot(name.drop_last())
    }
}

/// The extension of a file name: what follows its last `.`, unless the name
/// has none or only starts with one.
pub open spec fn extension_of(name: Seq<char>) -> Option<Seq<char>> {
    match last_dot(name) {
        Some(at) => if at > 0 {
            Some(name.skip(at + 1))
        } else {
            None
        },
        None => None,
    }
}

/// The stem of a file name: what stands before its extension, or the whole
/// name where it has no extension.
pub open spec fn stem_of(name: Seq<char>) -> Seq<char> {
    match last_dot(name) {
        Some(at) => if at > 0 {
            name.take(at)
        } else {
            name
        },
        None => name,
    }
}

/// Whether a file name is that of a subtitle frame: its extension is `png`,
/// in any case.
pub open spec fn is_subtitle_name(name: Seq<char>) -> bool {
    match extension_of(name) {
        Some(ext) => lowercase(ext) == "png"@,
        None => false,
    }
}

/// The onset that a file name holds: its stem read as a 32-bit integer, or
/// zero where it is none.
pub open spec fn onset_of_name(name: Seq<char>) -> int {
    match parse_in_range(stem_of(name), i32::MIN as int, i32::MAX as int) {
        Some(v) => v,
        None => 0,
    }
}

/// Finds the last `.` of a file name.
fn find_last_dot(name: &Vec<char>) -> (r: Option<usize>)
    ensures
        match r {
            Some(at) => last_dot(name@) == Some(at as int) && at < name@.len(),
            None => last_dot(name@) is None,
        },
{
    let mut end: usize = name.len();
    assert(name@.take(end as int) =~= name@);
    while end > 0
        invariant
            end <= name.len(),
            last_dot(name@) == last_dot(name@.take(end as int)),
        decreases end,
    {
        let ghost here = name@.take(end as int);
        assert(here.last() == name@[end - 1]);
        if name[end - 1] == '.' {
            return Some(end - 1);
        }
        assert(here.drop_last() =~= name@.take(end - 1));
        end -= 1;
    }
    None
}

/// The extension of a file name, as it is written.
pub fn file_extension(name: &str) -> (r: Option<String>)
    ensures
        match r {
            Some(ext) => extension_of(name@) == Some(ext@),
            None => extension_of(name@) is None,
        },
{
    let chars = chars_of(name);
    match find_last_dot(&chars) {
        Some(at) => {
            let n = chars.len();
            if at > 0 {
                let ext = string_of(&chars, at + 1, n);
                assert(chars@.skip(at + 1) =~= chars@.subrange(at + 1, chars@.len() as int));
                Some(ext)
            } else {
                None
            }
        },
        None => None,
    }
}

/// Reads the onset that a file name holds.
pub fn parse_onset(name: &str) -> (onset: i32)
    ensures
        onset == onset_of_name(name@),
{
    let chars = chars_of(name);
    let end = match find_last_dot(&chars) {
        Some(at) => if at > 0 {
            at
        } else {
            chars.len()
        },
        None => chars.len(),
    };
    assert(chars@.subrange(0, end as int) =~= stem_of(name@));
    match parse_i64(&chars, 0, end) {
        Some(v) => {
            if v >= i32::MIN as i64 && v <= i32::MAX as i64 {
                v as i32
            } else {
                0
            }
        },
        None => 0,
    }
}

/// Whether an extension that is already in lower case is `png`.
pub fn is_png_extension(lowered: &str) -> (png: bool)
    ensures
        png == (lowered@ == "png"@),
{
    same_text(lowered, "png")
}

/// The subtitle frame of a file name, if the file is one.
pub fn subtitle_frame(name: &str) -> (r: Option<SubtitleFrame>)
    ensures
        match r {
            Some(frame) => is_subtitle_name(name@) && frame.onset_ms == onset_of_name(name@)
                && frame.file_name@ == name@,
            None => !is_subtitle_name(name@),
        },
{
    match file_extension(name) {
        Some(ext) => {
            let lowered = to_lowercase(ext.as_str());
            if is_png_extension(lowered.as_str()) {
                Some(SubtitleFrame { onset_ms: parse_onset(name), file_name: String::from_str(name) })
            } else {
                None
            }
        },
        None => None,
    }
}

/// Whether the frames are in the order of their onsets.
pub open spec fn ordered(frames: Seq<SubtitleFrame>) -> bool {
    forall|i: int, j: int| 0 <= i < j < frames.len() ==> frames[i].onset_ms <= frames[j].onset_ms
}

/// The onset and name of a frame.
pub open spec fn entry_of(frame: SubtitleFrame) -> (int, Seq<char>) {
    (frame.onset_ms as int, frame.file_name@)
}

/// The onset and name of each frame.
pub open spec fn frame_entries(frames: Seq<SubtitleFrame>) -> Seq<(int, Seq<char>)> {
    Seq::new(frames.len(), |i: int| entry_of(frames[i]))
}

/// Where an entry with the given onset goes in a list that is in order:
/// behind every entry whose onset is not later, before the first whose onset
/// is later.
pub open spec fn insert_position(sorted: Seq<(int, Seq<char>)>, onset: int) -> int
    decreases sorted.len(),
{
    if sorted.len() == 0 || sorted[0].0 > onset {
        0
    } else {
        1 + insert_position(sorted.skip(1), onset)
    }
}

/// The entries in the order of their onsets, entries with the same onset in
/// the order in which they came: each entry in turn goes behind those already
/// placed whose onset is not later.
pub open spec fn sorted_entries(entries: Seq<(int, Seq<char>)>) -> Seq<(int, Seq<char>)>
    decreases entries.len(),
{
    if entries.len() == 0 {
        Seq::empty()
    } else {
        let before = sorted_entries(entries.drop_last());
        before.insert(insert_position(before, entries.last().0), entries.last())
    }
}

/// Puts subtitle frames in the order of their onsets: the result holds the
/// same frames, each as often as before, with no onset before an earlier one.
/// Frames with the same onset keep the order in which they came.
pub fn sort_subtitle_frames(frames: &Vec<SubtitleFrame>) -> (sorted: Vec<SubtitleFrame>)
    ensures
        frame_entries(sorted@) == sorted_entries(frame_entries(frames@)),
        ordered(sorted@),
        frame_entries(sorted@).to_multiset() == frame_entries(frames@).to_multiset(),
        sorted@.len() == frames@.len(),
{
    let mut sorted: Vec<SubtitleFrame> = Vec::new();
    let mut i: usize = 0;
    proof {
        assert(frame_entries(frames@.take(0)) =~= frame_entries(sorted@));
    }
    while i < frames.len()
        invariant
            i <= frames.len(),
            ordered(sorted@),
            sorted@.len() == i,
            frame_entries(sorted@) == sorted_entries(frame_entries(frames@.take(i as int))),
            frame_entries(sorted@).to_multiset() == frame_entries(frames@.take(i as int)).to_multiset(),
        decreases frames.len() - i,
    {
        let onset = frames[i].onset_ms;
        let ghost placed = frame_entries(sorted@);
        let mut at: usize = 0;
        assert(placed.skip(0) =~= placed);
        while at < sorted.len() && sorted[at].onset_ms <= onset
            invariant
                at <= sorted.len(),
                placed == frame_entries(sorted@),
                forall|k: int| 0 <= k < at ==> sorted@[k].onset_ms <= onset,
                insert_position(placed, onset as int) == at + insert_position(
                    placed.skip(at as int),
                    onset as int,
                ),
            decreases sorted.len() - at,
        {
            assert(placed.skip(at as int)[0] == entry_of(sorted@[at as int]));
            assert(placed.skip(at as int).skip(1) =~= placed.skip(at + 1));
            at += 1;
        }
        proof {
            if at < sorted.len() {
                assert(placed.skip(at as int)[0] == entry_of(sorted@[at as int]));
            }
            assert(insert_position(placed, onset as int) == at);
        }
        let item = SubtitleFrame { onset_ms: onset, file_name: frames[i].file_name.clone() };
        assert(entry_of(item) == entry_of(frames@[i as int]));
        let ghost before = sorted@;
        sorted.insert(at, item);
        proof {
            let entry = entry_of(item);
            let now = frame_entries(frames@.take(i + 1));
            assert(frame_entries(sorted@) =~= placed.insert(at as int, entry));
            to_multiset_insert(placed, at as int, entry);
            vstd::seq_lib::to_multiset_build(frame_entries(frames@.take(i as int)), entry);
            assert(now =~= frame_entries(frames@.take(i as int)).push(entry));
            assert(now.drop_last() =~= frame_entries(frames@.take(i as int)));
            assert(now.last() == entry);
            assert forall|a: int, b: int| 0 <= a < b < sorted@.len() implies sorted@[a].onset_ms
                <= sorted@[b].onset_ms by {
                if a < at && b > at {
                    assert(sorted@[a] == before[a]);
                    assert(sorted@[b] == before[b - 1]);
                } else if a < at && b < at {
                    assert(sorted@[a] == before[a]);
                    assert(sorted@[b] == before[b]);
                } else if a > at {
                    assert(sorted@[a] == before[a - 1]);
                    assert(sorted@[b] == before[b - 1]);
                } else if a == at {
                    assert(sorted@[b] == before[b - 1]);
                } else {
                    assert(sorted@[a] == before[a]);
                }
            }
        }
        i += 1;
    }
    assert(frames@.take(frames.len() as int) =~= frames@);
    sorted
}

/// The subtitle frames among the first `upto` file names, in the order of the
/// names.
pub open spec fn frames_among(names: Seq<String>, upto: int) -> Seq<(int, Seq<char>)>
    decreases upto,
{
    if upto <= 0 {
        Seq::empty()
    } else {
        let before = frames_among(names, upto - 1);
        let name = names[upto - 1]@;
        if is_subtitle_name(name) {
            before.push((onset_of_name(name), name))
        } else {
            before
        }
    }
}

/// Picks the subtitle frames out of the file names of a directory, in the
/// order of the names.
pub fn pick_subtitle_frames(names: &Vec<String>) -> (frames: Vec<SubtitleFrame>)
    ensures
        frame_entries(frames@) == frames_among(names@, names@.len() as int),
{
    let mut frames: Vec<SubtitleFrame> = Vec::new();
    let mut i: usize = 0;
    assert(frame_entries(frames@) =~= frames_among(names@, 0));
    while i < names.len()
        invariant
            i <= names.len(),
            frame_entries(frames@) == frames_among(names@, i as int),
        decreases names.len() - i,
    {
        let ghost before = frame_entries(frames@);
        match subtitle_frame(names[i].as_str()) {
            Some(frame) => {
                frames.push(frame);
                assert(frame_entries(frames@) =~= before.push(
                    (onset_of_name(names@[i as int]@), names@[i as int]@),
                ));
            },
            None => {},
        }
        i += 1;
    }
    frames
}

/// The onsets of a list of frames.
pub fn onsets_of(frames: &Vec<SubtitleFrame>) -> (onsets: Vec<i32>)
    ensures
        onsets@.len() == frames@.len(),
        forall|i: int| 0 <= i < frames@.len() ==> onsets@[i] == frames@[i].onset_ms,
{
    let mut onsets: Vec<i32> = Vec::new();
    let mut i: usize = 0;
    while i < frames.len()
        invariant
            i <= frames.len(),
            onsets@.len() == i,
            forall|k: int| 0 <= k < i ==> onsets@[k] == frames@[k].onset_ms,
        decreases frames.len() - i,
    {
        onsets.push(frames[i].onset_ms);
        i += 1;
    }
    onsets
}

/// Lists the subtitle frames of a directory in the order of their onsets.
///
/// Files whose extension is not `png` are left out. A directory without a
/// subtitle frame is rejected.
pub fn list_subtitle_frames(names: &Vec<String>) -> (r: Result<Vec<SubtitleFrame>, InputError>)
    ensures
        match r {
            Ok(frames) => frames@.len() > 0 && ordered(frames@) && frame_entries(frames@)
                == sorted_entries(frames_among(names@, names@.len() as int)) && frame_entries(
                frames@,
            ).to_multiset() == frames_among(names@, names@.len() as int).to_multiset(),
            Err(e) => e == InputError::NoSubtitles && frames_among(names@, names@.len() as int).len()
                == 0,
        },
{
    let picked = pick_subtitle_frames(names);
    assert(frame_entries(picked@).len() == picked@.len());
    if picked.len() == 0 {
        return Err(InputError::NoSubtitles);
    }
    Ok(sort_subtitle_frames(&picked))
}

/// The name of the image file of subtitle `index`, if there is such a
/// subtitle.
pub fn frame_file(frames: &Vec<SubtitleFrame>, index: usize) -> (name: Option<String>)
    ensures
        index < frames@.len() ==> name is Some && name->0@ == frames@[index as int].file_name@,
        index >= frames@.len() ==> name is None,
{
    if index < frames.len() {
        Some(frames[index].file_name.clone())
    } else {
        None
    }
}

} // verus!
