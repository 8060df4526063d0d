//! Background job types and lifecycle states.
use vstd::prelude::*;

use super::progress::Progress;
use crate::text::{concat, decimal, decimal_string, owned};

verus! {

/// Unique identifier for a background job.
///
/// Each job receives a monotonically increasing ID when created.
#[derive(Debug, Clone, Copy, PartialEq, Eq, Hash)]
pub struct JobId(u64);

impl JobId {
    /// The raw value of the identifier.
    pub closed spec fn value(self) -> u64 {
        self.0
    }

    /// Creates a new `JobId` with the given raw value.
    pub fn new(id: u64) -> (r: Self)
        ensures
            r.value() == id,
    {
        JobId(id)
    }

    /// Returns the raw ID value.
    pub fn as_u64(self) -> (r: u64)
        ensures
            r == self.value(),
    {
        self.0
    }

    /// The identifier as shown to users: `job-` and the decimal value.
    pub fn to_display_string(&self) -> (r: String)
        ensures
            r@ == "job-"@ + decimal(self.value() as nat),
    {
        let digits = decimal_string(self.0);
        concat("job-", digits.as_str())
    }
}

/// The type of background operation.
#[derive(Debug, Clone, Copy, PartialEq, Eq)]
pub enum JobType {
    /// Index all enabled folders from the configuration.
    IndexAll,
    /// Rebuild the entire search index from scratch.
    RebuildIndex,
}

/// The name of a job type as shown to users.
pub open spec fn job_type_name(t: JobType) -> Seq<char> {
    match t {
        JobType::IndexAll => "Index All"@,
        JobType::RebuildIndex => "Rebuild Index"@,
    }
}

impl JobType {
    /// The name of the job type as shown to users.
    pub fn display_name(&self) -> (r: &'static str)
        ensures
            r@ == job_type_name(*self),
    {
        match self {
            JobType::IndexAll => "Index All",
            JobType::RebuildIndex => "Rebuild Index",
        }
    }

    /// The job type as shown to users.
    pub fn to_display_string(&self) -> (r: String)
        ensures
            r@ == job_type_name(*self),
    {
        owned(self.display_name())
    }
}

/// The lifecycle state of a background job.
#[derive(Debug, Clone, PartialEq, Eq)]
pub enum JobState {
    /// The job is queued but has not started yet.
    Pending,
    /// The job is currently executing.
    Running,
    /// The job completed successfully.
    Completed,
    /// The job failed with an error message.
    Failed(String),
}

/// A [`JobState`] with its failure message as a character sequence.
pub enum JobStateModel {
    Pending,
    Running,
    Completed,
    Failed(Seq<char>),
}

impl View for JobState {
    type V = JobStateModel;

    open spec fn view(&self) -> JobStateModel {
        match self {
            JobState::Pending => JobStateModel::Pending,
            JobState::Running => JobStateModel::Running,
            JobState::Completed => JobStateModel::Completed,
            JobState::Failed(m) => JobStateModel::Failed(m@),
        }
    }
}

/// The state as shown to users.
pub open spec fn job_state_text(s: JobStateModel) -> Seq<char> {
    match s {
        JobStateModel::Pending => "Pending"@,
        JobStateModel::Running => "Running"@,
        JobStateModel::Completed => "Completed"@,
        JobStateModel::Failed(m) => "Failed: "@ + m,
    }
}

impl JobState {
    /// The state as shown to users.
    pub fn to_display_string(&self) -> (r: String)
        ensures
            r@ == job_state_text(self@),
    {
        match self {
            JobState::Pending => owned("Pending"),
            JobState::Running => owned("Running"),
            JobState::Completed => owned("Completed"),
            JobState::Failed(m) => concat("Failed: ", m.as_str()),
        }
    }

    /// A copy of this state.
    pub fn copy(&self) -> (r: Self)
        ensures
            r@ == self@,
    {
        match self {
            JobState::Pending => JobState::Pending,
            JobState::Running => JobState::Running,
            JobState::Completed => JobState::Completed,
            JobState::Failed(m) => JobState::Failed(owned(m.as_str())),
        }
    }
}

/// A snapshot of a background job's current status.
#[derive(Debug, Clone)]
pub struct JobStatus {
    /// Unique identifier for this job.
    pub id: JobId,
    /// The type of operation being performed.
    pub job_type: JobType,
    /// Current lifecycle state.
    pub state: JobState,
    /// Current progress information, if the job is running.
    pub progress: Option<Progress>,
}

impl JobStatus {
    /// Creates a new `JobStatus` snapshot.
    pub fn new(id: JobId, job_type: JobType, state: JobState, progress: Option<Progress>) -> (r: Self)
        ensures
            r.id == id,
            r.job_type == job_type,
            r.state == state,
            r.progress == progress,
    {
        JobStatus { id, job_type, state, progress }
    }

    /// Returns `true` if the job is currently running.
    pub fn is_running(&self) -> (r: bool)
        ensures
            r == self.state is Running,
    {
        match self.state {
            JobState::Running => true,
            _ => false,
        }
    }

    /// Returns `true` if the job has completed successfully.
    pub fn is_completed(&self) -> (r: bool)
        ensures
            r == self.state is Completed,
    {
        match self.state {
            JobState::Completed => true,
            _ => false,
        }
    }

    /// Returns `true` if the job has failed.
    pub fn is_failed(&self) -> (r: bool)
        ensures
            r == self.state is Failed,
    {
        match self.state {
            JobState::Failed(_) => true,
            _ => false,
        }
    }
}

} // verus!
