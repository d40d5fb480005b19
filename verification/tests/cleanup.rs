use socket_swap::cleanup::{cleanup_action, pending_cleanup_label, CleanupAction, CLEANUP_INTERVAL_SECS};
use socket_swap::snapshot::{JobSnapshot, JobStatusSnapshot};

fn job(active: Option<i32>, succeeded: Option<i32>, failed: Option<i32>, labels: Vec<(&str, &str)>) -> JobSnapshot {
    JobSnapshot {
        name: Some("ss-x".to_string()),
        creation_timestamp: None,
        labels: Some(labels.into_iter().map(|(k, v)| (k.to_string(), v.to_string())).collect()),
        first_container: None,
        status: Some(JobStatusSnapshot {
            active,
            succeeded,
            failed,
            start_time: None,
            completion_time: None,
        }),
    }
}

#[test]
fn succeeded_jobs_are_deleted() {
    assert_eq!(cleanup_action(&job(None, Some(1), None, vec![])), CleanupAction::Delete);
}

#[test]
fn failed_jobs_are_marked_then_deleted() {
    let first = job(None, None, Some(1), vec![("socket-shim", "true")]);
    assert_eq!(cleanup_action(&first), CleanupAction::MarkPendingCleanup);
    let (k, v) = pending_cleanup_label();
    assert_eq!((k.as_str(), v.as_str()), ("socket-swap/pending-cleanup", "true"));
    let second = job(None, None, Some(1), vec![("socket-shim", "true"), (&k, &v)]);
    assert_eq!(cleanup_action(&second), CleanupAction::Delete);
    let wrong_value = job(None, None, Some(1), vec![(&k, "false")]);
    assert_eq!(cleanup_action(&wrong_value), CleanupAction::MarkPendingCleanup);
}

#[test]
fn unfinished_jobs_are_left_alone() {
    assert_eq!(cleanup_action(&job(Some(1), None, None, vec![])), CleanupAction::Skip);
    assert_eq!(cleanup_action(&job(None, Some(0), Some(0), vec![])), CleanupAction::Skip);
    let mut unstarted = job(None, None, None, vec![]);
    unstarted.status = None;
    assert_eq!(cleanup_action(&unstarted), CleanupAction::Skip);
    assert_eq!(CLEANUP_INTERVAL_SECS, 60);
}
