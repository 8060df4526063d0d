//! Bookkeeping of background indexing and rebuild jobs.
//!
//! The manager records the current job's state and progress and hands out
//! job IDs. Running the job itself (scanning, committing) happens outside;
//! the worker reports its progress and its outcome back to the manager.
use vstd::prelude::*;

use super::job::{JobId, JobState, JobStateModel, JobStatus, JobType, job_type_name};
use super::progress::{Progress, ProgressModel, fresh_progress, progress_of_statistics};
use crate::error::GlintIndexError;
use crate::scanner::statistics::ScannerStatistics;
use crate::text::{concat, owned};

verus! {

/// The current job's ID, type, state and progress.
struct SharedState {
    id: JobId,
    job_type: JobType,
    state: JobState,
    progress: Progress,
}

/// What a [`TaskManager`] holds: the current job, if any, as its state and
/// progress; the ID and type of that job (0 and Index All before any job);
/// and the next job ID to hand out.
pub struct TaskModel {
    pub job: Option<(JobStateModel, ProgressModel)>,
    pub job_id: u64,
    pub job_type: JobType,
    pub next_id: u64,
}

/// A job is running when it is pending or running.
pub open spec fn job_active(m: TaskModel) -> bool {
    match m.job {
        Some((s, _)) => s is Running || s is Pending,
        None => false,
    }
}

/// The status message a newly started job shows.
pub open spec fn starting_message(t: JobType) -> Seq<char> {
    "Starting "@ + job_type_name(t) + "..."@
}

/// The manager after starting a job of type `t`, when none is active.
pub open spec fn started(m: TaskModel, t: JobType) -> TaskModel {
    TaskModel {
        job: Some((JobStateModel::Running, fresh_progress(starting_message(t)))),
        job_id: m.next_id,
        job_type: t,
        next_id: m.next_id.wrapping_add(1),
    }
}

/// The message the manager refuses a second job with.
pub open spec fn already_running_message() -> Seq<char> {
    "A job is already running"@
}

/// The manager after its job ended with `outcome`: completed with the final
/// statistics, or failed with a message.
pub open spec fn completed(m: TaskModel, outcome: Result<ScannerStatistics, Seq<char>>) -> TaskModel {
    match m.job {
        None => m,
        Some((_, p)) => TaskModel {
            job: Some(
                match outcome {
                    Ok(stats) => (JobStateModel::Completed, progress_of_statistics(stats, "Completed"@)),
                    Err(e) => (
                        JobStateModel::Failed(e),
                        ProgressModel { status_message: "Failed: "@ + e, ..p },
                    ),
                },
            ),
            ..m
        },
    }
}

/// Manages the lifecycle of background indexing and rebuild jobs. Only one
/// job can run at a time.
pub struct TaskManager {
    current_job: Option<SharedState>,
    next_id: u64,
}

impl View for TaskManager {
    type V = TaskModel;

    closed spec fn view(&self) -> TaskModel {
        TaskModel {
            job: match self.current_job {
                Some(s) => Some((s.state@, s.progress@)),
                None => None,
            },
            job_id: match self.current_job {
                Some(s) => s.id.value(),
                None => 0,
            },
            job_type: match self.current_job {
                Some(s) => s.job_type,
                None => JobType::IndexAll,
            },
            next_id: self.next_id,
        }
    }
}

impl TaskManager {
    /// Creates a new `TaskManager` with no active jobs.
    pub fn new() -> (r: Self)
        ensures
            r@ == (TaskModel { job: None, job_id: 0, job_type: JobType::IndexAll, next_id: 1 }),
    {
        TaskManager { current_job: None, next_id: 1 }
    }

    /// Returns the status of the current job, if any: its ID, type, state
    /// and progress.
    pub fn job_status(&self) -> (r: Option<JobStatus>)
        ensures
            r is None <==> self@.job is None,
            r matches Some(st) ==> {
                &&& st.id.value() == self@.job_id
                &&& st.job_type == self@.job_type
                &&& st.state@ == self@.job.unwrap().0
                &&& st.progress matches Some(p) && p@ == self@.job.unwrap().1
            },
    {
        match &self.current_job {
            None => None,
            Some(shared) => Some(
                JobStatus::new(
                    shared.id,
                    shared.job_type,
                    shared.state.copy(),
                    Some(shared.progress.copy()),
                ),
            ),
        }
    }

    /// Returns the current progress, if there is a job.
    pub fn current_progress(&self) -> (r: Option<Progress>)
        ensures
            r is None <==> self@.job is None,
            r matches Some(p) ==> p@ == self@.job.unwrap().1,
    {
        match &self.current_job {
            None => None,
            Some(shared) => Some(shared.progress.copy()),
        }
    }

    /// Returns `true` if a job is currently running or pending.
    pub fn is_running(&self) -> (r: bool)
        ensures
            r == job_active(self@),
    {
        match &self.current_job {
            None => false,
            Some(shared) => match shared.state {
                JobState::Running | JobState::Pending => true,
                _ => false,
            },
        }
    }

    /// Starts an "Index All" job: returns its ID, or an error if a job is
    /// already running.
    pub fn start_index_all(&mut self) -> (r: Result<JobId, GlintIndexError>)
        ensures
            job_active(old(self)@) ==> final(self)@ == old(self)@,
            job_active(old(self)@) ==> (r matches Err(GlintIndexError::Other(m))
                && m@ == already_running_message()),
            !job_active(old(self)@) ==> final(self)@ == started(old(self)@, JobType::IndexAll),
            !job_active(old(self)@) ==> (r matches Ok(id) && id.value() == old(self)@.next_id),
    {
        self.start_job(JobType::IndexAll)
    }

    /// Starts a "Rebuild Index" job: returns its ID, or an error if a job is
    /// already running.
    pub fn start_rebuild(&mut self) -> (r: Result<JobId, GlintIndexError>)
        ensures
            job_active(old(self)@) ==> final(self)@ == old(self)@,
            job_active(old(self)@) ==> (r matches Err(GlintIndexError::Other(m))
                && m@ == already_running_message()),
            !job_active(old(self)@) ==> final(self)@ == started(old(self)@, JobType::RebuildIndex),
            !job_active(old(self)@) ==> (r matches Ok(id) && id.value() == old(self)@.next_id),
    {
        self.start_job(JobType::RebuildIndex)
    }

    fn start_job(&mut self, job_type: JobType) -> (r: Result<JobId, GlintIndexError>)
        ensures
            job_active(old(self)@) ==> final(self)@ == old(self)@,
            job_active(old(self)@) ==> (r matches Err(GlintIndexError::Other(m))
                && m@ == already_running_message()),
            !job_active(old(self)@) ==> final(self)@ == started(old(self)@, job_type),
            !job_active(old(self)@) ==> (r matches Ok(id) && id.value() == old(self)@.next_id),
    {
        if self.is_running() {
            return Err(GlintIndexError::Other(owned("A job is already running")));
        }
        let id = JobId::new(self.next_id);
        self.next_id = self.next_id.wrapping_add(1);
        let prefix = concat("Starting ", job_type.display_name());
        let status_message = concat(prefix.as_str(), "...");
        self.current_job = Some(
            SharedState {
                id,
                job_type,
                state: JobState::Running,
                progress: Progress::new(status_message.as_str()),
            },
        );
        Ok(id)
    }

    /// Replaces the status message of the current job's progress.
    pub fn set_status_message(&mut self, message: &str)
        ensures
            final(self)@ == (match old(self)@.job {
                None => old(self)@,
                Some((s, p)) => TaskModel {
                    job: Some((s, ProgressModel { status_message: message@, ..p })),
                    ..old(self)@
                },
            }),
    {
        if let Some(shared) = &mut self.current_job {
            shared.progress.status_message = owned(message);
        }
    }

    /// Replaces the current job's progress.
    pub fn set_progress(&mut self, progress: Progress)
        ensures
            final(self)@ == (match old(self)@.job {
                None => old(self)@,
                Some((s, p)) => TaskModel { job: Some((s, progress@)), ..old(self)@ },
            }),
    {
        if let Some(shared) = &mut self.current_job {
            shared.progress = progress;
        }
    }

    /// Records that an "Index All" job started scanning its directories.
    pub fn begin_scanning(&mut self)
        ensures
            final(self)@ == (match old(self)@.job {
                None => old(self)@,
                Some((s, p)) => TaskModel {
                    job: Some((s, ProgressModel { status_message: "Scanning directories..."@, ..p })),
                    ..old(self)@
                },
            }),
    {
        self.set_status_message("Scanning directories...");
    }

    /// Records that an "Index All" job scanned its directories with `stats`
    /// and is committing the index.
    pub fn begin_commit(&mut self, stats: &ScannerStatistics)
        ensures
            final(self)@ == (match old(self)@.job {
                None => old(self)@,
                Some((s, p)) => TaskModel {
                    job: Some((s, progress_of_statistics(*stats, "Committing index..."@))),
                    ..old(self)@
                },
            }),
    {
        self.set_progress(Progress::from_statistics(stats, "Committing index..."));
    }

    /// Records that a "Rebuild Index" job started rebuilding.
    pub fn begin_rebuild(&mut self)
        ensures
            final(self)@ == (match old(self)@.job {
                None => old(self)@,
                Some((s, p)) => TaskModel {
                    job: Some((s, ProgressModel { status_message: "Rebuilding index..."@, ..p })),
                    ..old(self)@
                },
            }),
    {
        self.set_status_message("Rebuilding index...");
    }

    /// Records how the current job ended: completed with the final
    /// statistics, or failed with an error message.
    pub fn complete_job(&mut self, outcome: Result<ScannerStatistics, String>)
        ensures
            final(self)@ == completed(
                old(self)@,
                match outcome {
                    Ok(s) => Ok(s),
                    Err(e) => Err(e@),
                },
            ),
    {
        if let Some(shared) = &mut self.current_job {
            match outcome {
                Ok(stats) => {
                    shared.state = JobState::Completed;
                    shared.progress = Progress::from_statistics(&stats, "Completed");
                },
                Err(e) => {
                    shared.progress.status_message = concat("Failed: ", e.as_str());
                    shared.state = JobState::Failed(e);
                },
            }
        }
    }
}

/// Law: a started job is active, so a second start is refused until it
/// ends, and the status reports that job: the ID it was given and its type.
pub proof fn law_started_job_is_active(m: TaskModel, t: JobType)
    ensures
        job_active(started(m, t)),
        started(m, t).job_id == m.next_id,
        started(m, t).job_type == t,
{
}

/// Law: once the current job has ended, completed or failed, no job is
/// active.
pub proof fn law_ended_job_is_inactive(m: TaskModel, outcome: Result<ScannerStatistics, Seq<char>>)
    requires
        m.job is Some,
    ensures
        !job_active(completed(m, outcome)),
        completed(m, outcome).next_id == m.next_id,
{
}

/// Law: job IDs increase by one with every job started; the job after a
/// finished one gets the next ID.
pub proof fn law_job_ids_increase(
    m: TaskModel,
    first: JobType,
    outcome: Result<ScannerStatistics, Seq<char>>,
    second: JobType,
)
    requires
        m.next_id < u64::MAX - 1,
    ensures
        started(m, first).next_id == m.next_id + 1,
        !job_active(completed(started(m, first), outcome)),
        started(completed(started(m, first), outcome), second).next_id == m.next_id + 2,
{
}

/// Law: the outcome of a job decides its final state: statistics mean
/// completed, an error message means failed with that message.
pub proof fn law_outcome_decides_state(m: TaskModel, outcome: Result<ScannerStatistics, Seq<char>>)
    requires
        m.job is Some,
    ensures
        match outcome {
            Ok(_) => completed(m, outcome).job.unwrap().0 is Completed,
            Err(e) => completed(m, outcome).job.unwrap().0 == JobStateModel::Failed(e),
        },
{
}

} // verus!
