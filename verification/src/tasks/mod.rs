//! Background task bookkeeping for long-running indexing operations.
//!
//! Only one job may execute at a time: attempting to start a second job
//! while one is running returns an error. A job goes from running to
//! completed or failed.
pub mod job;
pub mod manager;
pub mod progress;

pub use job::{JobId, JobState, JobStatus, JobType};
pub use manager::TaskManager;
pub use progress::Progress;
