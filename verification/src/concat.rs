//! Stitching produced videos into one file: whether there is anything to
//! stitch, the file list and the command of the toolchain, and the rounds of
//! waiting for it.

use crate::errors::ExportError;
use crate::errors::InputError;
use crate::fast_export::escape_ffconcat_path;
use crate::fast_export::file_line;
use crate::report::exit_code_text;
use crate::report::push_exit_code;
use crate::text::decimal_digits;
use crate::text::push_natural;
use crate::text::push_text;
use crate::text::texts;
use vstd::prelude::*;

verus! {

/// Milliseconds between two looks at the running command.
pub const POLL_INTERVAL_MS: u64 = 500;

/// Looks between two notes that the command is still running.
pub const POLLS_PER_NOTE: u64 = 10;

/// What stitching a list of videos comes to.
#[derive(Debug, Clone, Copy, PartialEq, Eq, Structural)]
pub enum ConcatPlan {
    /// The list holds one video: copy the file at this position to the
    /// output.
    Copy { source: usize },
    /// The list holds several videos: run the toolchain on all of them.
    Run,
}

/// Decides what stitching `count` videos comes to: nothing can be made of an
/// empty list, one video is copied, several are joined by the toolchain.
pub fn plan_concat(count: usize) -> (plan: Result<ConcatPlan, InputError>)
    ensures
        count == 0 ==> plan == Err::<ConcatPlan, InputError>(InputError::NothingToConcatenate),
        count == 1 ==> plan == Ok::<ConcatPlan, InputError>(ConcatPlan::Copy { source: 0 }),
        count > 1 ==> plan == Ok::<ConcatPlan, InputError>(ConcatPlan::Run),
{
    if count == 0 {
        Err(InputError::NothingToConcatenate)
    } else if count == 1 {
        Ok(ConcatPlan::Copy { source: 0 })
    } else {
        Ok(ConcatPlan::Run)
    }
}

/// The first video of the list that does not exist, if any. `present` tells
/// of each video whether its file is there.
pub fn first_missing(present: &Vec<bool>) -> (missing: Option<usize>)
    ensures
        match missing {
            Some(i) => i < present@.len() && !present@[i as int] && forall|j: int|
                0 <= j < i ==> present@[j],
            None => forall|j: int| 0 <= j < present@.len() ==> present@[j],
        },
{
    let mut i: usize = 0;
    while i < present.len()
        invariant
            i <= present.len(),
            forall|j: int| 0 <= j < i ==> present@[j],
        decreases present.len() - i,
    {
        if !present[i] {
            return Some(i);
        }
        i += 1;
    }
    None
}

/// The file list of the first `upto` videos: one line per video.
pub open spec fn video_list(paths: Seq<Seq<char>>, upto: int) -> Seq<char>
    decreases upto,
{
    if upto <= 0 {
        Seq::empty()
    } else {
        video_list(paths, upto - 1) + file_line(paths[upto - 1])
    }
}

/// Writes the file list of the videos to stitch.
pub fn concat_list_content(video_paths: &Vec<String>) -> (content: String)
    ensures
        content@ == video_list(texts(video_paths@), video_paths@.len() as int),
{
    let mut content = String::new();
    let mut i: usize = 0;
    while i < video_paths.len()
        invariant
            i <= video_paths.len(),
            content@ == video_list(texts(video_paths@), i as int),
        decreases video_paths.len() - i,
    {
        content.append("file '");
        content.append(escape_ffconcat_path(video_paths[i].as_str()).as_str());
        content.append("'\n");
        assert(content@ =~= video_list(texts(video_paths@), i as int) + file_line(
            video_paths@[i as int]@,
        ));
        i += 1;
    }
    content
}

/// The name of the file list, made of the time in seconds since the epoch.
pub open spec fn concat_list_name(epoch_secs: nat) -> Seq<char> {
    "concat_list_"@ + decimal_digits(epoch_secs) + ".txt"@
}

/// Names the file list.
pub fn name_concat_list(epoch_secs: u64) -> (name: String)
    ensures
        name@ == concat_list_name(epoch_secs as nat),
{
    let mut name = String::from_str("concat_list_");
    push_natural(&mut name, epoch_secs as u128);
    name.append(".txt");
    name
}

/// The arguments that deal with the audio of the stitched videos: where one
/// of them has audio it is encoded anew as AAC at 320 kb/s in stereo, which
/// mends the timestamps; where none has, the output gets no audio.
pub open spec fn concat_audio_args(any_audio: bool) -> Seq<Seq<char>> {
    if any_audio {
        seq![
            "-map"@,
            "0:a?"@,
            "-af"@,
            "aresample=async=1:first_pts=0"@,
            "-c:a"@,
            "aac"@,
            "-b:a"@,
            "320k"@,
            "-ac"@,
            "2"@,
        ]
    } else {
        seq!["-an"@]
    }
}

/// The arguments of the command that stitches the listed videos: the video
/// streams are copied as they are.
pub open spec fn concat_args(list_path: Seq<char>, any_audio: bool, output_path: Seq<char>) -> Seq<
    Seq<char>,
> {
    seq![
        "-y"@,
        "-hide_banner"@,
        "-loglevel"@,
        "info"@,
        "-fflags"@,
        "+genpts"@,
        "-f"@,
        "concat"@,
        "-safe"@,
        "0"@,
        "-i"@,
        list_path,
        "-avoid_negative_ts"@,
        "make_zero"@,
        "-map"@,
        "0:v"@,
        "-c:v"@,
        "copy"@,
    ] + concat_audio_args(any_audio) + seq![output_path]
}

/// Whether any of the videos has audio.
pub fn any_has_audio(has_audio: &Vec<bool>) -> (any: bool)
    ensures
        any == exists|i: int| 0 <= i < has_audio@.len() && has_audio@[i],
{
    let mut i: usize = 0;
    while i < has_audio.len()
        invariant
            i <= has_audio.len(),
            forall|j: int| 0 <= j < i ==> !has_audio@[j],
        decreases has_audio.len() - i,
    {
        if has_audio[i] {
            return true;
        }
        i += 1;
    }
    false
}

/// Builds the arguments of the command that stitches the listed videos.
pub fn build_concat_args(list_path: &str, any_audio: bool, output_path: &str) -> (args: Vec<String>)
    ensures
        texts(args@) == concat_args(list_path@, any_audio, output_path@),
{
    let mut args: Vec<String> = Vec::new();
    assert(texts(args@) =~= Seq::<Seq<char>>::empty());
    push_text(&mut args, "-y");
    push_text(&mut args, "-hide_banner");
    push_text(&mut args, "-loglevel");
    push_text(&mut args, "info");
    push_text(&mut args, "-fflags");
    push_text(&mut args, "+genpts");
    push_text(&mut args, "-f");
    push_text(&mut args, "concat");
    push_text(&mut args, "-safe");
    push_text(&mut args, "0");
    push_text(&mut args, "-i");
    push_text(&mut args, list_path);
    push_text(&mut args, "-avoid_negative_ts");
    push_text(&mut args, "make_zero");
    push_text(&mut args, "-map");
    push_text(&mut args, "0:v");
    push_text(&mut args, "-c:v");
    push_text(&mut args, "copy");
    if any_audio {
        push_text(&mut args, "-map");
        push_text(&mut args, "0:a?");
        push_text(&mut args, "-af");
        push_text(&mut args, "aresample=async=1:first_pts=0");
        push_text(&mut args, "-c:a");
        push_text(&mut args, "aac");
        push_text(&mut args, "-b:a");
        push_text(&mut args, "320k");
        push_text(&mut args, "-ac");
        push_text(&mut args, "2");
    } else {
        push_text(&mut args, "-an");
    }
    push_text(&mut args, output_path);
    assert(texts(args@) =~= concat_args(list_path@, any_audio, output_path@));
    args
}

/// What a look at the running command shows.
#[derive(Debug, Clone, Copy, PartialEq, Eq, Structural)]
pub enum PollEvent {
    /// The job's slot is empty: a cancel took the process.
    Taken,
    /// The process has exited, with success or not, and with an exit code
    /// unless a signal ended it.
    Exited { success: bool, code: Option<i32> },
    /// The process is still running.
    Running,
    /// The process could not be looked at.
    Unreadable,
}

/// What to do after a look at the running command.
#[derive(Debug, Clone, Copy, PartialEq, Eq, Structural)]
pub enum PollAction {
    /// Give up: the job was cancelled.
    Cancelled,
    /// Stop waiting: the process has ended, with success or not.
    Done { success: bool, code: Option<i32> },
    /// Wait for the poll interval and look again; `note` says whether to
    /// note that the command is still running.
    Wait { note: bool },
    /// Stop waiting: the process cannot be watched.
    Failed,
}

/// The rounds of waiting for the stitching command.
#[derive(Debug, Clone, Copy, PartialEq, Eq, Structural)]
pub struct PollState {
    /// Looks that found the process still running since the last note.
    pub looks: u64,
}

/// Whether the look after `looks` unnoted ones is to be noted: every tenth
/// is.
pub open spec fn notes_next(looks: u64) -> bool {
    looks >= POLLS_PER_NOTE - 1
}

/// The action that follows an event after `looks` unnoted looks.
pub open spec fn poll_action(looks: u64, event: PollEvent) -> PollAction {
    match event {
        PollEvent::Taken => PollAction::Cancelled,
        PollEvent::Exited { success, code } => PollAction::Done { success, code },
        PollEvent::Running => PollAction::Wait { note: notes_next(looks) },
        PollEvent::Unreadable => PollAction::Failed,
    }
}

impl PollState {
    /// The state before the first look.
    pub fn new() -> (state: PollState)
        ensures
            state.looks == 0,
    {
        PollState { looks: 0 }
    }

    /// Takes in what a look at the process shows and says what to do.
    ///
    /// A cancel is seen at the first look after it, so a cancelled job ends
    /// within one poll interval.
    pub fn step(&mut self, event: PollEvent) -> (action: PollAction)
        ensures
            action == poll_action(old(self).looks, event),
            event != PollEvent::Running ==> final(self).looks == old(self).looks,
            event == PollEvent::Running && notes_next(old(self).looks) ==> final(self).looks == 0,
            event == PollEvent::Running && !notes_next(old(self).looks) ==> final(self).looks
                == old(self).looks + 1,
    {
        match event {
            PollEvent::Taken => PollAction::Cancelled,
            PollEvent::Exited { success, code } => PollAction::Done { success, code },
            PollEvent::Running => {
                let note = self.looks >= POLLS_PER_NOTE - 1;
                if note {
                    self.looks = 0;
                } else {
                    self.looks = self.looks + 1;
                }
                PollAction::Wait { note }
            },
            PollEvent::Unreadable => PollAction::Failed,
        }
    }
}

/// How stitching ends once the waiting is over: a process that failed or
/// could not be watched is an encode error, one that succeeded without
/// leaving the output file is an I/O error, and a cancel is a cancel. While
/// the waiting goes on there is no outcome.
pub open spec fn outcome_of(action: PollAction, output_present: bool) -> Option<
    Result<(), ExportError>,
> {
    match action {
        PollAction::Cancelled => Some(Err(ExportError::Cancelled)),
        PollAction::Failed => Some(Err(ExportError::Encode)),
        PollAction::Done { success, .. } => if !success {
            Some(Err(ExportError::Encode))
        } else if !output_present {
            Some(Err(ExportError::Io))
        } else {
            Some(Ok(()))
        },
        PollAction::Wait { .. } => None,
    }
}

/// Computes [`outcome_of`].
pub fn concat_outcome(action: PollAction, output_present: bool) -> (outcome: Option<
    Result<(), ExportError>,
>)
    ensures
        outcome == outcome_of(action, output_present),
{
    match action {
        PollAction::Cancelled => Some(Err(ExportError::Cancelled)),
        PollAction::Failed => Some(Err(ExportError::Encode)),
        PollAction::Done { success, .. } => {
            if !success {
                Some(Err(ExportError::Encode))
            } else if !output_present {
                Some(Err(ExportError::Io))
            } else {
                Some(Ok(()))
            }
        },
        PollAction::Wait { .. } => None,
    }
}

/// What the caller is told when the waiting is over: the output path where
/// stitching succeeded, else why it failed. A process that failed is reported
/// with its exit code, one that could not be watched with the complaint of
/// the operating system. While the waiting goes on there is nothing to tell.
pub open spec fn reply_of(
    action: PollAction,
    output_present: bool,
    complaint: Seq<char>,
    output_path: Seq<char>,
) -> Option<Result<Seq<char>, Seq<char>>> {
    match action {
        PollAction::Cancelled => Some(Err("Concaténation annulée par l'utilisateur"@)),
        PollAction::Failed => Some(Err("Erreur attente FFmpeg concat: "@ + complaint)),
        PollAction::Done { success, code } => if !success {
            Some(Err("FFmpeg concat a échoué avec le code "@ + exit_code_text(code)))
        } else if !output_present {
            Some(Err("Le fichier de sortie n'a pas été créé"@))
        } else {
            Some(Ok(output_path))
        },
        PollAction::Wait { .. } => None,
    }
}

/// The text of a reply.
pub open spec fn reply_view(reply: Option<Result<String, String>>) -> Option<
    Result<Seq<char>, Seq<char>>,
> {
    match reply {
        Some(Ok(m)) => Some(Ok(m@)),
        Some(Err(m)) => Some(Err(m@)),
        None => None,
    }
}

/// Computes [`reply_of`].
pub fn concat_reply(action: PollAction, output_present: bool, complaint: &str, output_path: &str) -> (reply:
    Option<Result<String, String>>)
    ensures
        reply_view(reply) == reply_of(action, output_present, complaint@, output_path@),
{
    match action {
        PollAction::Cancelled => Some(
            Err(String::from_str("Concaténation annulée par l'utilisateur")),
        ),
        PollAction::Failed => {
            let mut text = String::from_str("Erreur attente FFmpeg concat: ");
            text.append(complaint);
            Some(Err(text))
        },
        PollAction::Done { success, code } => {
            if !success {
                let mut text = String::from_str("FFmpeg concat a échoué avec le code ");
                push_exit_code(&mut text, code);
                Some(Err(text))
            } else if !output_present {
                Some(Err(String::from_str("Le fichier de sortie n'a pas été créé")))
            } else {
                Some(Ok(String::from_str(output_path)))
            }
        },
        PollAction::Wait { .. } => None,
    }
}

/// What a look at a process shows.
#[derive(Debug, Clone, Copy, PartialEq, Eq, Structural)]
pub enum Look {
    /// The process has exited.
    Exited { success: bool, code: Option<i32> },
    /// The process is still running.
    Running,
    /// The process could not be looked at.
    Unreadable,
}

/// The process to look at for a job, given what its slot in the registry
/// holds: the one in the slot. A job that is not registered any more, or
/// whose slot is empty, has been taken by a cancel.
pub fn watched_process(slot: Option<Option<u64>>) -> (r: Result<u64, PollEvent>)
    ensures
        r == match slot {
            Some(Some(process)) => Ok::<u64, PollEvent>(process),
            _ => Err::<u64, PollEvent>(PollEvent::Taken),
        },
{
    match slot {
        Some(Some(process)) => Ok(process),
        _ => Err(PollEvent::Taken),
    }
}

/// The event that a look at a job's process comes to. Where there is no
/// process to look at, a cancel has taken it.
pub fn look_event(look: Option<Look>) -> (event: PollEvent)
    ensures
        event == match look {
            Some(Look::Exited { success, code }) => PollEvent::Exited { success, code },
            Some(Look::Running) => PollEvent::Running,
            Some(Look::Unreadable) => PollEvent::Unreadable,
            None => PollEvent::Taken,
        },
{
    match look {
        Some(Look::Exited { success, code }) => PollEvent::Exited { success, code },
        Some(Look::Running) => PollEvent::Running,
        Some(Look::Unreadable) => PollEvent::Unreadable,
        None => PollEvent::Taken,
    }
}

/// The message for a video of the list that does not exist.
pub open spec fn missing_video(path: Seq<char>) -> Seq<char> {
    "Fichier vidéo non trouvé: "@ + path
}

/// The words for the caller when a video of the list does not exist.
pub fn missing_video_message(path: &str) -> (text: String)
    ensures
        text@ == missing_video(path@),
{
    let mut text = String::from_str("Fichier vidéo non trouvé: ");
    text.append(path);
    text
}

} // verus!
