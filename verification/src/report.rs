//! What is written down and told to the host when a job ends: the record of
//! a failed command, the messages, and the events.

use crate::text::decimal;
use crate::text::decimal_digits;
use crate::text::chars_of;
use crate::text::join;
use crate::text::join_strings;
use crate::text::push_integer;
use crate::text::push_natural;
use crate::text::string_of;
use crate::text::texts;
use vstd::prelude::*;

verus! {

/// An exit code as the record shows it: `Some(<code>)`, or `None` for a
/// process that ended without one.
pub open spec fn exit_code_text(code: Option<i32>) -> Seq<char> {
    match code {
        Some(c) => "Some("@ + decimal(c as int) + ")"@,
        None => "None"@,
    }
}

/// Appends [`exit_code_text`].
pub fn push_exit_code(s: &mut String, code: Option<i32>)
    ensures
        final(s)@ == old(s)@ + exit_code_text(code),
{
    match code {
        Some(c) => {
            s.append("Some(");
            push_integer(s, c as i64);
            s.append(")");
            assert(s@ =~= old(s)@ + exit_code_text(code));
        },
        None => {
            s.append("None");
        },
    }
}

/// The name of the file that records a failed command, made of the time in
/// seconds since the epoch.
pub open spec fn failure_log_name(epoch_secs: nat) -> Seq<char> {
    "ffmpeg_failed_"@ + decimal_digits(epoch_secs) + ".txt"@
}

/// Names the file that records a failed command.
pub fn name_failure_log(epoch_secs: u64) -> (name: String)
    ensures
        name@ == failure_log_name(epoch_secs as nat),
{
    let mut name = String::from_str("ffmpeg_failed_");
    push_natural(&mut name, epoch_secs as u128);
    name.append(".txt");
    name
}

/// What the record shows of the error stream: the stream itself, or a note
/// where it was empty.
pub open spec fn shown_stderr(stderr: Seq<char>) -> Seq<char> {
    if stderr.len() == 0 {
        "No stderr output captured"@
    } else {
        stderr
    }
}

/// The record of a failed command: when it ran, for which job, how it ended,
/// the exact command, and what it wrote to its error stream.
pub open spec fn failure_log(
    epoch_secs: nat,
    export_id: Seq<char>,
    code: Option<i32>,
    command: Seq<Seq<char>>,
    stderr: Seq<char>,
) -> Seq<char> {
    "FFmpeg Export Failure Log\n=========================\nTimestamp: "@ + decimal_digits(
        epoch_secs,
    ) + "\nExport ID: "@ + export_id + "\nExit Code: "@ + exit_code_text(code)
        + "\n\nFFmpeg Command:\n"@ + join(command, " "@) + "\n\nStandard Error Output:\n"@
        + shown_stderr(stderr) + "\n"@
}

/// Writes the record of a failed command. `command` holds the program and
/// its arguments.
pub fn build_failure_log(
    epoch_secs: u64,
    export_id: &str,
    code: Option<i32>,
    command: &Vec<String>,
    stderr: &str,
) -> (log: String)
    ensures
        log@ == failure_log(epoch_secs as nat, export_id@, code, texts(command@), stderr@),
{
    let mut log = String::from_str(
        "FFmpeg Export Failure Log\n=========================\nTimestamp: ",
    );
    push_natural(&mut log, epoch_secs as u128);
    log.append("\nExport ID: ");
    log.append(export_id);
    log.append("\nExit Code: ");
    push_exit_code(&mut log, code);
    log.append("\n\nFFmpeg Command:\n");
    log.append(join_strings(command, " ").as_str());
    log.append("\n\nStandard Error Output:\n");
    if stderr.is_empty() {
        log.append("No stderr output captured");
    } else {
        log.append(stderr);
    }
    log.append("\n");
    log
}

/// The message of a failed export: how the command ended, where its record
/// is, and the record itself.
pub open spec fn failure_message(code: Option<i32>, log_name: Seq<char>, log: Seq<char>) -> Seq<char> {
    "ffmpeg failed during video exportation (exit code: "@ + exit_code_text(code)
        + ")\n\nSee the log file: "@ + log_name + "\n\nLog details:\n"@ + log
}

/// Writes the message of a failed export.
pub fn build_failure_message(code: Option<i32>, log_name: &str, log: &str) -> (message: String)
    ensures
        message@ == failure_message(code, log_name@, log@),
{
    let mut message = String::from_str("ffmpeg failed during video exportation (exit code: ");
    push_exit_code(&mut message, code);
    message.append(")\n\nSee the log file: ");
    message.append(log_name);
    message.append("\n\nLog details:\n");
    message.append(log);
    message
}

/// The message of a cancelled export.
pub open spec fn cancelled_message(export_id: Seq<char>) -> Seq<char> {
    "Export "@ + export_id + " was cancelled"@
}

/// Writes the message of a cancelled export.
pub fn build_cancelled_message(export_id: &str) -> (message: String)
    ensures
        message@ == cancelled_message(export_id@),
{
    let mut message = String::from_str("Export ");
    message.append(export_id);
    message.append(" was cancelled");
    message
}

/// Whether `c` separates the parts of a path.
pub open spec fn is_separator(c: char) -> bool {
    c == '/' || c == '\\'
}

/// The length of what stands before the last part of a path: the position
/// after its last separator, or zero.
pub open spec fn parent_len(path: Seq<char>) -> int
    decreases path.len(),
{
    if path.len() == 0 {
        0
    } else if is_separator(path.last()) {
        path.len() as int
    } else {
        parent_len(path.drop_last())
    }
}

/// The last part of a path: what follows its last separator.
pub open spec fn file_name_of(path: Seq<char>) -> Seq<char> {
    path.skip(parent_len(path))
}

/// The last part of a path.
pub fn file_name(path: &str) -> (name: String)
    ensures
        name@ == file_name_of(path@),
{
    let chars = chars_of(path);
    let mut start: usize = chars.len();
    assert(chars@.take(start as int) =~= chars@);
    while start > 0 && chars[start - 1] != '/' && chars[start - 1] != '\\'
        invariant
            start <= chars.len(),
            parent_len(chars@) == parent_len(chars@.take(start as int)),
        decreases start,
    {
        let ghost here = chars@.take(start as int);
        assert(here.last() == chars@[start - 1]);
        assert(here.drop_last() =~= chars@.take(start - 1));
        start -= 1;
    }
    proof {
        let here = chars@.take(start as int);
        if start > 0 {
            assert(here.last() == chars@[start - 1]);
        }
    }
    assert(parent_len(chars@) == start);
    assert(chars@.skip(start as int) =~= chars@.subrange(start as int, chars@.len() as int));
    string_of(&chars, start, chars.len())
}

/// What the host is told about a job.
#[derive(Debug, Clone, PartialEq, Eq)]
pub enum HostEvent {
    /// `export-progress`: how far the job is, in hundredths of a percent, and
    /// where known the time reached and the time to reach, in microseconds.
    Progress {
        export_id: String,
        progress: u32,
        current_us: Option<u64>,
        total_us: Option<u64>,
        chunk_index: Option<i32>,
    },
    /// `export-complete`: the job has made its output file.
    Complete { filename: String, export_id: String, full_path: String, chunk_index: Option<i32> },
    /// `export-error`: the job has ended without an output file.
    Error { export_id: String, error: String, chunk_index: Option<i32> },
}

/// The name under which an event is emitted.
pub open spec fn event_name_of(event: HostEvent) -> Seq<char> {
    match event {
        HostEvent::Progress { .. } => "export-progress"@,
        HostEvent::Complete { .. } => "export-complete"@,
        HostEvent::Error { .. } => "export-error"@,
    }
}

/// The name under which an event is emitted.
pub fn event_name(event: &HostEvent) -> (name: &'static str)
    ensures
        name@ == event_name_of(*event),
{
    match event {
        HostEvent::Progress { .. } => "export-progress",
        HostEvent::Complete { .. } => "export-complete",
        HostEvent::Error { .. } => "export-error",
    }
}

/// The event that tells of a finished export: it names the output file, the
/// job, the full path, and the chunk where the export is one.
pub fn completion_event(export_id: &str, out_path: &str, chunk_index: Option<i32>) -> (event:
    HostEvent)
    ensures
        event matches HostEvent::Complete { filename, export_id: id, full_path, chunk_index: chunk }
            && filename@ == file_name_of(out_path@) && id@ == export_id@ && full_path@
            == out_path@ && chunk == chunk_index,
{
    HostEvent::Complete {
        filename: file_name(out_path),
        export_id: String::from_str(export_id),
        full_path: String::from_str(out_path),
        chunk_index,
    }
}

/// The event that tells of a failed or cancelled export.
pub fn error_event(export_id: &str, error: &str, chunk_index: Option<i32>) -> (event: HostEvent)
    ensures
        event matches HostEvent::Error { export_id: id, error: message, chunk_index: chunk }
            && id@ == export_id@ && message@ == error@ && chunk == chunk_index,
{
    HostEvent::Error {
        export_id: String::from_str(export_id),
        error: String::from_str(error),
        chunk_index,
    }
}

} // verus!
