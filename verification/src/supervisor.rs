//! Keeping track of running jobs: the registry from which a cancel takes a
//! job's process, the states a job goes through, and what the host is told in
//! the end.

use crate::errors::ExportError;
use crate::text::same_text;
use vstd::prelude::*;

verus! {

/// A job in the registry: its id and the handle of its process, which is
/// gone once somebody has taken it to wait for it or to kill it.
pub struct JobEntry {
    pub id: String,
    pub process: Option<u64>,
}

/// The jobs of a list of entries: each id with its process handle. Where an
/// id occurs twice the later entry counts.
pub open spec fn jobs_of(entries: Seq<JobEntry>) -> Map<Seq<char>, Option<u64>>
    decreases entries.len(),
{
    if entries.len() == 0 {
        Map::empty()
    } else {
        jobs_of(entries.drop_last()).insert(entries.last().id@, entries.last().process)
    }
}

/// Whether no id occurs twice.
pub open spec fn distinct_ids(entries: Seq<JobEntry>) -> bool {
    forall|i: int, j: int| 0 <= i < j < entries.len() ==> entries[i].id@ != entries[j].id@
}

/// The jobs of a list are exactly its entries.
pub proof fn lemma_jobs_of(entries: Seq<JobEntry>)
    requires
        distinct_ids(entries),
    ensures
        forall|i: int|
            0 <= i < entries.len() ==> jobs_of(entries).contains_key(#[trigger] entries[i].id@)
                && jobs_of(entries)[entries[i].id@] == entries[i].process,
        forall|k: Seq<char>| #[trigger]
            jobs_of(entries).contains_key(k) ==> exists|i: int|
                0 <= i < entries.len() && entries[i].id@ == k,
    decreases entries.len(),
{
    if entries.len() > 0 {
        let shorter = entries.drop_last();
        assert(distinct_ids(shorter)) by {
            assert forall|i: int, j: int| 0 <= i < j < shorter.len() implies shorter[i].id@
                != shorter[j].id@ by {
                assert(shorter[i] == entries[i]);
                assert(shorter[j] == entries[j]);
            }
        }
        lemma_jobs_of(shorter);
        assert forall|i: int| 0 <= i < entries.len() implies jobs_of(entries).contains_key(
            #[trigger] entries[i].id@,
        ) && jobs_of(entries)[entries[i].id@] == entries[i].process by {
            if i < entries.len() - 1 {
                assert(shorter[i] == entries[i]);
                assert(entries[i].id@ != entries[entries.len() - 1].id@);
            }
        }
        assert forall|k: Seq<char>| #[trigger] jobs_of(entries).contains_key(k) implies exists|
            i: int,
        |
            0 <= i < entries.len() && entries[i].id@ == k by {
            if k == entries.last().id@ {
                assert(entries[entries.len() - 1].id@ == k);
            } else {
                assert(jobs_of(shorter).contains_key(k));
                let i = choose|i: int| 0 <= i < shorter.len() && shorter[i].id@ == k;
                assert(entries[i].id@ == k);
            }
        }
    }
}

/// The registry of running jobs.
pub struct Registry {
    entries: Vec<JobEntry>,
}

/// What a cancel did to a job.
#[derive(Debug, Clone, Copy, PartialEq, Eq, Structural)]
pub enum CancelOutcome {
    /// The job was running: its process, whose handle this is, has to be
    /// killed and reaped.
    Killed { process: u64 },
    /// The job was registered, but its process had been taken already.
    AlreadyFinished,
    /// No such job is registered.
    NotFound,
}

impl View for Registry {
    type V = Map<Seq<char>, Option<u64>>;

    closed spec fn view(&self) -> Map<Seq<char>, Option<u64>> {
        jobs_of(self.entries@)
    }
}

impl Registry {
    /// Whether the registry is sound: no job is entered twice.
    pub closed spec fn wf(&self) -> bool {
        distinct_ids(self.entries@)
    }

    /// An empty registry.
    pub fn new() -> (registry: Registry)
        ensures
            registry.wf(),
            registry@ == Map::<Seq<char>, Option<u64>>::empty(),
    {
        Registry { entries: Vec::new() }
    }

    /// The position of a job's entry.
    fn position(&self, id: &str) -> (r: Option<usize>)
        ensures
            match r {
                Some(i) => i < self.entries@.len() && self.entries@[i as int].id@ == id@,
                None => forall|j: int| 0 <= j < self.entries@.len() ==> self.entries@[j].id@ != id@,
            },
    {
        let mut i: usize = 0;
        while i < self.entries.len()
            invariant
                i <= self.entries@.len(),
                forall|j: int| 0 <= j < i ==> self.entries@[j].id@ != id@,
            decreases self.entries@.len() - i,
        {
            if same_text(self.entries[i].id.as_str(), id) {
                return Some(i);
            }
            i += 1;
        }
        None
    }

    /// Whether a job is registered.
    pub fn contains(&self, id: &str) -> (found: bool)
        requires
            self.wf(),
        ensures
            found == self@.contains_key(id@),
    {
        proof {
            lemma_jobs_of(self.entries@);
        }
        self.position(id).is_some()
    }

    /// The process of a job as its slot holds it: nothing for a job that is
    /// not registered, an empty slot for one whose process was taken.
    pub fn process(&self, id: &str) -> (slot: Option<Option<u64>>)
        requires
            self.wf(),
        ensures
            self@.contains_key(id@) ==> slot == Some(self@[id@]),
            !self@.contains_key(id@) ==> slot is None,
    {
        proof {
            lemma_jobs_of(self.entries@);
        }
        match self.position(id) {
            Some(i) => Some(self.entries[i].process),
            None => None,
        }
    }

    /// The number of registered jobs.
    pub fn len(&self) -> (n: usize)
        requires
            self.wf(),
        ensures
            n == self@.dom().len(),
            self@.dom().finite(),
    {
        proof {
            lemma_jobs_count(self.entries@);
        }
        self.entries.len()
    }

    /// Registers a job with the handle of its process. A job that is
    /// registered under the same id is replaced.
    pub fn register(&mut self, id: &str, process: u64)
        requires
            old(self).wf(),
        ensures
            final(self).wf(),
            final(self)@ == old(self)@.insert(id@, Some(process)),
    {
        proof {
            lemma_jobs_of(self.entries@);
        }
        let ghost before = self.entries@;
        match self.position(id) {
            Some(i) => {
                let entry = JobEntry { id: String::from_str(id), process: Some(process) };
                self.entries.set(i, entry);
                proof {
                    let after = self.entries@;
                    assert(distinct_ids(after)) by {
                        assert forall|a: int, b: int| 0 <= a < b < after.len() implies after[a].id@
                            != after[b].id@ by {
                            assert(after[a].id@ == before[a].id@);
                            assert(after[b].id@ == before[b].id@);
                        }
                    }
                    lemma_jobs_of(after);
                    lemma_same_jobs(after, before, id@, Some(process), i as int);
                }
            },
            None => {
                let entry = JobEntry { id: String::from_str(id), process: Some(process) };
                self.entries.push(entry);
                proof {
                    let after = self.entries@;
                    assert(after.drop_last() =~= before);
                    assert(distinct_ids(after)) by {
                        assert forall|a: int, b: int| 0 <= a < b < after.len() implies after[a].id@
                            != after[b].id@ by {
                            assert(after[a] == before[a]);
                            if b < before.len() {
                                assert(after[b] == before[b]);
                            }
                        }
                    }
                }
            },
        }
    }

    /// Takes the process of a job out of its slot, as the one who waits for
    /// it does. The job stays registered.
    pub fn take_process(&mut self, id: &str) -> (process: Option<u64>)
        requires
            old(self).wf(),
        ensures
            final(self).wf(),
            old(self)@.contains_key(id@) ==> process == old(self)@[id@] && final(self)@ == old(
                self,
            )@.insert(id@, None),
            !old(self)@.contains_key(id@) ==> process is None && final(self)@ == old(self)@,
    {
        proof {
            lemma_jobs_of(self.entries@);
        }
        let ghost before = self.entries@;
        match self.position(id) {
            Some(i) => {
                let process = self.entries[i].process;
                let entry = JobEntry { id: String::from_str(id), process: None };
                self.entries.set(i, entry);
                proof {
                    let after = self.entries@;
                    assert(distinct_ids(after)) by {
                        assert forall|a: int, b: int| 0 <= a < b < after.len() implies after[a].id@
                            != after[b].id@ by {
                            assert(after[a].id@ == before[a].id@);
                            assert(after[b].id@ == before[b].id@);
                        }
                    }
                    lemma_jobs_of(after);
                    lemma_same_jobs(after, before, id@, None, i as int);
                }
                process
            },
            None => None,
        }
    }

    /// Removes a job, as happens when it ends.
    pub fn remove(&mut self, id: &str) -> (removed: bool)
        requires
            old(self).wf(),
        ensures
            final(self).wf(),
            removed == old(self)@.contains_key(id@),
            final(self)@ == old(self)@.remove(id@),
    {
        proof {
            lemma_jobs_of(self.entries@);
        }
        let ghost before = self.entries@;
        match self.position(id) {
            Some(i) => {
                self.entries.remove(i);
                proof {
                    lemma_removed_jobs(before, self.entries@, i as int);
                }
                true
            },
            None => {
                assert(self@ =~= old(self)@.remove(id@));
                false
            },
        }
    }

    /// Cancels a job: takes it out of the registry and says what is to be
    /// done with its process.
    pub fn cancel(&mut self, id: &str) -> (outcome: CancelOutcome)
        requires
            old(self).wf(),
        ensures
            final(self).wf(),
            final(self)@ == old(self)@.remove(id@),
            !final(self)@.contains_key(id@),
            outcome == cancel_outcome(old(self)@, id@),
    {
        proof {
            lemma_jobs_of(self.entries@);
        }
        let ghost before = self.entries@;
        match self.position(id) {
            Some(i) => {
                let process = self.entries[i].process;
                self.entries.remove(i);
                proof {
                    lemma_removed_jobs(before, self.entries@, i as int);
                }
                match process {
                    Some(p) => CancelOutcome::Killed { process: p },
                    None => CancelOutcome::AlreadyFinished,
                }
            },
            None => {
                assert(self@ =~= old(self)@.remove(id@));
                CancelOutcome::NotFound
            },
        }
    }
}

/// What a cancel does to a job, given the registry before it.
pub open spec fn cancel_outcome(jobs: Map<Seq<char>, Option<u64>>, id: Seq<char>) -> CancelOutcome {
    if !jobs.contains_key(id) {
        CancelOutcome::NotFound
    } else {
        match jobs[id] {
            Some(process) => CancelOutcome::Killed { process },
            None => CancelOutcome::AlreadyFinished,
        }
    }
}

/// Replacing the entry at position `i` by one with the same id changes that
/// job's process and nothing else.
proof fn lemma_same_jobs(
    after: Seq<JobEntry>,
    before: Seq<JobEntry>,
    id: Seq<char>,
    process: Option<u64>,
    i: int,
)
    requires
        distinct_ids(before),
        distinct_ids(after),
        0 <= i < before.len(),
        after.len() == before.len(),
        before[i].id@ == id,
        after[i].id@ == id,
        after[i].process == process,
        forall|j: int| 0 <= j < before.len() && j != i ==> after[j] == before[j],
    ensures
        jobs_of(after) == jobs_of(before).insert(id, process),
{
    lemma_jobs_of(before);
    lemma_jobs_of(after);
    let left = jobs_of(after);
    let right = jobs_of(before).insert(id, process);
    assert forall|k: Seq<char>| left.contains_key(k) == right.contains_key(k) by {
        if left.contains_key(k) {
            let j = choose|j: int| 0 <= j < after.len() && after[j].id@ == k;
            if j != i {
                assert(before[j].id@ == k);
            }
        }
        if right.contains_key(k) && k != id {
            let j = choose|j: int| 0 <= j < before.len() && before[j].id@ == k;
            assert(after[j].id@ == k);
        }
        if k == id {
            assert(after[i].id@ == k);
        }
    }
    assert forall|k: Seq<char>| left.contains_key(k) implies left[k] == right[k] by {
        let j = choose|j: int| 0 <= j < after.len() && after[j].id@ == k;
        if j != i {
            assert(before[j].id@ == k);
        }
    }
    assert(left =~= right);
}

/// Removing the entry at position `i` removes that job and nothing else.
proof fn lemma_removed_jobs(before: Seq<JobEntry>, after: Seq<JobEntry>, i: int)
    requires
        distinct_ids(before),
        0 <= i < before.len(),
        after == before.remove(i),
    ensures
        distinct_ids(after),
        jobs_of(after) == jobs_of(before).remove(before[i].id@),
{
    assert forall|a: int, b: int| 0 <= a < b < after.len() implies after[a].id@ != after[b].id@ by {
        let x = if a < i {
            a
        } else {
            a + 1
        };
        let y = if b < i {
            b
        } else {
            b + 1
        };
        assert(after[a] == before[x]);
        assert(after[b] == before[y]);
    }
    lemma_jobs_of(before);
    lemma_jobs_of(after);
    let id = before[i].id@;
    let left = jobs_of(after);
    let right = jobs_of(before).remove(id);
    assert forall|k: Seq<char>| left.contains_key(k) == right.contains_key(k) by {
        if left.contains_key(k) {
            let j = choose|j: int| 0 <= j < after.len() && after[j].id@ == k;
            let x = if j < i {
                j
            } else {
                j + 1
            };
            assert(after[j] == before[x]);
            assert(before[x].id@ == k);
        }
        if right.contains_key(k) {
            let j = choose|j: int| 0 <= j < before.len() && before[j].id@ == k;
            let x = if j < i {
                j
            } else {
                j - 1
            };
            assert(after[x] == before[j]);
            assert(after[x].id@ == k);
        }
    }
    assert forall|k: Seq<char>| left.contains_key(k) implies left[k] == right[k] by {
        let j = choose|j: int| 0 <= j < after.len() && after[j].id@ == k;
        let x = if j < i {
            j
        } else {
            j + 1
        };
        assert(after[j] == before[x]);
        assert(before[x].id@ == k);
    }
    assert(left =~= right);
}

/// A list without repeated ids holds as many jobs as entries.
proof fn lemma_jobs_count(entries: Seq<JobEntry>)
    requires
        distinct_ids(entries),
    ensures
        jobs_of(entries).dom().finite(),
        jobs_of(entries).dom().len() == entries.len(),
    decreases entries.len(),
{
    if entries.len() > 0 {
        let shorter = entries.drop_last();
        assert(distinct_ids(shorter)) by {
            assert forall|i: int, j: int| 0 <= i < j < shorter.len() implies shorter[i].id@
                != shorter[j].id@ by {
                assert(shorter[i] == entries[i]);
                assert(shorter[j] == entries[j]);
            }
        }
        lemma_jobs_count(shorter);
        lemma_jobs_of(shorter);
        let id = entries.last().id@;
        if jobs_of(shorter).contains_key(id) {
            let i = choose|i: int| 0 <= i < shorter.len() && shorter[i].id@ == id;
            assert(entries[i].id@ == entries[entries.len() - 1].id@);
        }
        assert(jobs_of(entries).dom() =~= jobs_of(shorter).dom().insert(id));
    } else {
        assert(jobs_of(entries).dom() =~= Set::<Seq<char>>::empty());
    }
}

/// The process-wide bookkeeping: the registry of running jobs and that of
/// the open streaming sessions.
pub struct Supervisor {
    /// The running jobs, each with the handle of its process.
    pub exports: Registry,
    /// The open streaming sessions, each with the handle of its pipe.
    pub streams: Registry,
}

/// What a cancel comes to.
pub struct CancelReport {
    /// The streaming session that was closed: the handle of its pipe, if it
    /// still had one.
    pub closed_stream: Option<u64>,
    /// What happened to the job.
    pub outcome: CancelOutcome,
    /// What the caller is told: a message of success, or of failure where no
    /// such job was registered.
    pub reply: Result<String, String>,
}

/// The message for a job that was killed.
pub open spec fn killed_message(id: Seq<char>) -> Seq<char> {
    "Export "@ + id + " annulé avec succès"@
}

/// The message for a job whose process had gone already.
pub open spec fn finished_message(id: Seq<char>) -> Seq<char> {
    "Export "@ + id + " déjà terminé"@
}

/// The message for a job that is not registered.
pub open spec fn not_found_message(id: Seq<char>) -> Seq<char> {
    "Export "@ + id + " non trouvé ou déjà terminé"@
}

/// What the caller of a cancel is told.
pub open spec fn cancel_reply(outcome: CancelOutcome, id: Seq<char>) -> Result<Seq<char>, Seq<char>> {
    match outcome {
        CancelOutcome::Killed { .. } => Ok(killed_message(id)),
        CancelOutcome::AlreadyFinished => Ok(finished_message(id)),
        CancelOutcome::NotFound => Err(not_found_message(id)),
    }
}

/// The text of a reply.
pub open spec fn reply_text(reply: Result<String, String>) -> Result<Seq<char>, Seq<char>> {
    match reply {
        Ok(m) => Ok(m@),
        Err(m) => Err(m@),
    }
}

impl Supervisor {
    /// Whether both registries are sound.
    pub open spec fn wf(&self) -> bool {
        self.exports.wf() && self.streams.wf()
    }

    /// A supervisor without jobs.
    pub fn new() -> (supervisor: Supervisor)
        ensures
            supervisor.wf(),
            supervisor.exports@ == Map::<Seq<char>, Option<u64>>::empty(),
            supervisor.streams@ == Map::<Seq<char>, Option<u64>>::empty(),
    {
        Supervisor { exports: Registry::new(), streams: Registry::new() }
    }
}

/// Cancels a job.
///
/// An open streaming session of the job is removed first, which closes its
/// pipe. Then the job is taken out of the registry, and its process is to be
/// killed if it was still in its slot. A job that is not registered, because
/// it never was or has ended, is reported as not found; nothing else changes
/// then. After a cancel the job is registered nowhere.
pub fn cancel_export(supervisor: &mut Supervisor, export_id: &str) -> (report: CancelReport)
    requires
        old(supervisor).wf(),
    ensures
        final(supervisor).wf(),
        final(supervisor).streams@ == old(supervisor).streams@.remove(export_id@),
        final(supervisor).exports@ == old(supervisor).exports@.remove(export_id@),
        report.closed_stream == match cancel_outcome(old(supervisor).streams@, export_id@) {
            CancelOutcome::Killed { process } => Some(process),
            _ => None,
        },
        report.outcome == cancel_outcome(old(supervisor).exports@, export_id@),
        reply_text(report.reply) == cancel_reply(report.outcome, export_id@),
{
    let closed_stream = match supervisor.streams.cancel(export_id) {
        CancelOutcome::Killed { process } => Some(process),
        _ => None,
    };
    let outcome = supervisor.exports.cancel(export_id);
    let mut message = String::from_str("Export ");
    message.append(export_id);
    let reply = match outcome {
        CancelOutcome::Killed { .. } => {
            message.append(" annulé avec succès");
            Ok(message)
        },
        CancelOutcome::AlreadyFinished => {
            message.append(" déjà terminé");
            Ok(message)
        },
        CancelOutcome::NotFound => {
            message.append(" non trouvé ou déjà terminé");
            Err(message)
        },
    };
    CancelReport { closed_stream, outcome, reply }
}

/// Takes a frame pushed by the host. Push mode is reserved: the frame is
/// accepted and dropped.
pub fn send_frame(export_id: &str, frame_data: &Vec<u8>, count: u32) -> (r: Result<(), String>)
    ensures
        r == Ok::<(), String>(()),
{
    let _ = export_id;
    let _ = frame_data;
    let _ = count;
    Ok(())
}

/// Ends a pushed stream. Push mode is reserved: there is nothing to end.
pub fn finish_streaming_export(export_id: &str) -> (r: Result<(), String>)
    ensures
        r == Ok::<(), String>(()),
{
    let _ = export_id;
    Ok(())
}

/// The states of a job.
#[derive(Debug, Clone, Copy, PartialEq, Eq, Structural)]
pub enum JobState {
    /// Accepted, not yet registered.
    Pending,
    /// Registered, its process running.
    Running,
    /// Ended with an output file.
    Completed,
    /// Ended with an error.
    Failed,
    /// Ended by a cancel.
    Cancelled,
}

/// What happens to a job.
#[derive(Debug, Clone, Copy, PartialEq, Eq, Structural)]
pub enum JobEvent {
    /// The job was registered and its process started.
    Started,
    /// The process ended well.
    Succeeded,
    /// The process failed.
    Failed,
    /// The job was cancelled.
    Cancelled,
}

/// Whether a job in this state has ended.
pub open spec fn is_terminal(state: JobState) -> bool {
    state == JobState::Completed || state == JobState::Failed || state == JobState::Cancelled
}

/// The state that follows an event, where the event can happen in the state:
/// a pending job starts, a running job ends in one of three ways, and an
/// ended job stays as it is.
pub open spec fn state_after(state: JobState, event: JobEvent) -> Option<JobState> {
    match (state, event) {
        (JobState::Pending, JobEvent::Started) => Some(JobState::Running),
        (JobState::Running, JobEvent::Succeeded) => Some(JobState::Completed),
        (JobState::Running, JobEvent::Failed) => Some(JobState::Failed),
        (JobState::Running, JobEvent::Cancelled) => Some(JobState::Cancelled),
        _ => None,
    }
}

/// Computes [`state_after`].
pub fn next_state(state: JobState, event: JobEvent) -> (next: Option<JobState>)
    ensures
        next == state_after(state, event),
{
    match (state, event) {
        (JobState::Pending, JobEvent::Started) => Some(JobState::Running),
        (JobState::Running, JobEvent::Succeeded) => Some(JobState::Completed),
        (JobState::Running, JobEvent::Failed) => Some(JobState::Failed),
        (JobState::Running, JobEvent::Cancelled) => Some(JobState::Cancelled),
        _ => None,
    }
}

/// Whether a job in this state has an entry in the registry: exactly while
/// it runs.
pub fn is_registered(state: JobState) -> (registered: bool)
    ensures
        registered == (state == JobState::Running),
{
    match state {
        JobState::Running => true,
        _ => false,
    }
}

/// Every step out of the running state ends the job, and an ended job takes
/// no further step.
pub proof fn lemma_running_ends(state: JobState, event: JobEvent)
    ensures
        state == JobState::Running && state_after(state, event) is Some ==> is_terminal(
            state_after(state, event)->0,
        ),
        is_terminal(state) ==> state_after(state, event) is None,
{
}

/// How a failure of the frame loop is told apart: a pipe that broke while a
/// cancel was under way is the cancel's doing.
pub fn write_failure(cancel_requested: bool) -> (error: ExportError)
    ensures
        cancel_requested ==> error == ExportError::Cancelled,
        !cancel_requested ==> error == ExportError::Io,
{
    if cancel_requested {
        ExportError::Cancelled
    } else {
        ExportError::Io
    }
}

} // verus!
