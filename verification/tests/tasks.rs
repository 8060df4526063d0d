use glintindex_core::scanner::ScannerStatistics;
use glintindex_core::tasks::{JobId, JobState, JobStatus, JobType, Progress, TaskManager};

#[test]
fn job_id_display() {
    let id = JobId::new(42);
    assert_eq!(id.to_display_string(), "job-42");
    assert_eq!(id.as_u64(), 42);
}

#[test]
fn job_type_display() {
    assert_eq!(JobType::IndexAll.to_display_string(), "Index All");
    assert_eq!(JobType::RebuildIndex.to_display_string(), "Rebuild Index");
}

#[test]
fn job_state_display() {
    assert_eq!(JobState::Pending.to_display_string(), "Pending");
    assert_eq!(JobState::Running.to_display_string(), "Running");
    assert_eq!(JobState::Completed.to_display_string(), "Completed");
    assert_eq!(JobState::Failed("test error".into()).to_display_string(), "Failed: test error");
}

#[test]
fn job_status_is_running() {
    let status = JobStatus::new(JobId::new(1), JobType::IndexAll, JobState::Running, None);
    assert!(status.is_running());
    assert!(!status.is_completed());
    assert!(!status.is_failed());
}

#[test]
fn job_status_is_completed() {
    let status = JobStatus::new(JobId::new(1), JobType::IndexAll, JobState::Completed, None);
    assert!(!status.is_running());
    assert!(status.is_completed());
    assert!(!status.is_failed());
}

#[test]
fn job_status_is_failed() {
    let status = JobStatus::new(JobId::new(1), JobType::IndexAll, JobState::Failed("error".into()), None);
    assert!(!status.is_running());
    assert!(!status.is_completed());
    assert!(status.is_failed());
}

#[test]
fn job_status_with_progress() {
    let progress = Progress::new("Indexing").with_current_file("test.txt");
    let status = JobStatus::new(JobId::new(1), JobType::IndexAll, JobState::Running, Some(progress));
    assert!(status.progress.is_some());
    assert_eq!(status.progress.unwrap().current_file.as_deref(), Some("test.txt"));
}

#[test]
fn new_progress_defaults() {
    let progress = Progress::new("Indexing");
    assert_eq!(progress.status_message, "Indexing");
    assert_eq!(progress.files_processed, 0);
    assert!(progress.total_files.is_none());
    assert_eq!(progress.files_indexed, 0);
    assert_eq!(progress.files_skipped, 0);
    assert_eq!(progress.files_failed, 0);
    assert_eq!(progress.parser_errors, 0);
    assert_eq!(progress.parser_panics, 0);
    assert!(progress.current_file.is_none());
}

#[test]
fn progress_with_current_file() {
    let progress = Progress::new("Indexing").with_current_file("/path/to/file.txt");
    assert_eq!(progress.current_file.as_deref(), Some("/path/to/file.txt"));
}

#[test]
fn progress_with_total_files() {
    let progress = Progress::new("Indexing").with_total_files(100);
    assert_eq!(progress.total_files, Some(100));
    assert!(progress.has_total());
}

#[test]
fn progress_from_statistics() {
    let mut stats = ScannerStatistics::new();
    stats.files_discovered = 50;
    stats.files_indexed = 40;
    stats.files_skipped = 5;
    stats.files_failed = 5;
    stats.parser_errors = 3;
    stats.parser_panics = 1;

    let progress = Progress::from_statistics(&stats, "Indexing complete");
    assert_eq!(progress.status_message, "Indexing complete");
    assert_eq!(progress.files_processed, 50);
    assert_eq!(progress.files_indexed, 40);
    assert_eq!(progress.files_skipped, 5);
    assert_eq!(progress.files_failed, 5);
    assert_eq!(progress.parser_errors, 3);
    assert_eq!(progress.parser_panics, 1);
}

#[test]
fn progress_clone() {
    let progress = Progress::new("Indexing").with_total_files(100).with_current_file("test.txt");
    let cloned = progress.copy();
    assert_eq!(progress, cloned);
}

#[test]
fn task_manager_new() {
    let manager = TaskManager::new();
    assert!(!manager.is_running());
    assert!(manager.job_status().is_none());
    assert!(manager.current_progress().is_none());
}

#[test]
fn start_index_all() {
    let mut manager = TaskManager::new();
    let id = manager.start_index_all().unwrap();
    assert_eq!(id.as_u64(), 1);
    assert!(manager.is_running());
    assert_eq!(manager.current_progress().unwrap().status_message, "Starting Index All...");
    manager.complete_job(Ok(ScannerStatistics::new()));
    let status = manager.job_status().unwrap();
    assert!(status.is_completed() || status.is_failed());
    assert!(!manager.is_running());
}

#[test]
fn duplicate_job_rejection() {
    let mut manager = TaskManager::new();
    let _ = manager.start_index_all();
    assert!(manager.is_running());
    let result = manager.start_rebuild();
    assert!(result.is_err());
    assert!(result.unwrap_err().message().contains("already running"));
    manager.complete_job(Err("disk full".to_string()));
    let second = manager.start_rebuild().unwrap();
    assert_eq!(second.as_u64(), 2);
    assert_eq!(manager.current_progress().unwrap().status_message, "Starting Rebuild Index...");
}

#[test]
fn failed_job_records_message() {
    let mut manager = TaskManager::new();
    manager.start_rebuild().unwrap();
    manager.begin_rebuild();
    assert_eq!(manager.current_progress().unwrap().status_message, "Rebuilding index...");
    manager.complete_job(Err("index locked".to_string()));
    let status = manager.job_status().unwrap();
    assert!(status.is_failed());
    assert_eq!(status.state.to_display_string(), "Failed: index locked");
    assert_eq!(manager.current_progress().unwrap().status_message, "Failed: index locked");
}

#[test]
fn index_all_progress_steps() {
    let mut manager = TaskManager::new();
    manager.start_index_all().unwrap();
    manager.begin_scanning();
    assert_eq!(manager.current_progress().unwrap().status_message, "Scanning directories...");
    let mut stats = ScannerStatistics::new();
    stats.files_discovered = 3;
    stats.files_indexed = 2;
    manager.begin_commit(&stats);
    let progress = manager.current_progress().unwrap();
    assert_eq!(progress.status_message, "Committing index...");
    assert_eq!(progress.files_processed, 3);
    assert_eq!(progress.files_indexed, 2);
    manager.complete_job(Ok(stats));
    let done = manager.current_progress().unwrap();
    assert_eq!(done.status_message, "Completed");
    assert_eq!(done.files_indexed, 2);
}

#[test]
fn progress_updates_without_job_change_nothing() {
    let mut manager = TaskManager::new();
    manager.begin_scanning();
    manager.set_progress(Progress::new("x"));
    manager.complete_job(Ok(ScannerStatistics::new()));
    assert!(manager.job_status().is_none());
}

#[test]
fn job_status_reports_started_job() {
    let mut manager = TaskManager::new();
    let id = manager.start_rebuild().unwrap();
    let status = manager.job_status().unwrap();
    assert_eq!(status.id, id);
    assert_eq!(status.id.as_u64(), 1);
    assert_eq!(status.job_type, JobType::RebuildIndex);
    manager.complete_job(Ok(ScannerStatistics::new()));
    let id2 = manager.start_index_all().unwrap();
    let status2 = manager.job_status().unwrap();
    assert_eq!(status2.id, id2);
    assert_eq!(status2.job_type, JobType::IndexAll);
}
