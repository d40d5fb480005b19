//! The background sweep that removes the Jobs of finished containers.
//!
//! Every sweep looks at each managed Job: a Job that succeeded is deleted; a
//! Job that failed is first marked for cleanup and deleted at the next sweep,
//! which leaves a window to inspect the failure; a Job still running or not
//! yet started is left alone.

use vstd::prelude::*;
use crate::containers::is_positive;
use crate::labels::{label_map, lookup_label};
use crate::snapshot::JobSnapshot;
use crate::text::{owned, str_eq};

verus! {

/// Seconds between two sweeps; the first sweep runs at once.
pub const CLEANUP_INTERVAL_SECS: u64 = 60;

/// The key of the label that marks a failed Job for removal.
pub open spec fn pending_key() -> Seq<char> {
    "socket-swap/pending-cleanup"@
}

/// The label that marks a failed Job for removal at the next sweep:
/// `socket-swap/pending-cleanup=true`.
pub fn pending_cleanup_label() -> (label: (String, String))
    ensures
        label.0@ == pending_key(),
        label.1@ == "true"@,
{
    (owned("socket-swap/pending-cleanup"), owned("true"))
}

/// The Job carries the label `socket-swap/pending-cleanup=true`.
pub open spec fn marked_pending(job: JobSnapshot) -> bool {
    match job.labels {
        Some(l) => label_map(l@).contains_key(pending_key()) && label_map(l@)[pending_key()]
            == "true"@,
        None => false,
    }
}

/// What a sweep does with a Job.
#[derive(Debug, Clone, Copy, PartialEq, Eq)]
pub enum CleanupAction {
    /// Delete the Job, and with it its Pod.
    Delete,
    /// Add the label `socket-swap/pending-cleanup=true` to the Job.
    MarkPendingCleanup,
    /// Leave the Job as it is.
    Skip,
}

/// What a sweep does with a Job in the given state.
pub open spec fn cleanup_action_of(job: JobSnapshot) -> CleanupAction {
    match job.status {
        Some(st) => if is_positive(st.succeeded) {
            CleanupAction::Delete
        } else if is_positive(st.failed) {
            if marked_pending(job) {
                CleanupAction::Delete
            } else {
                CleanupAction::MarkPendingCleanup
            }
        } else {
            CleanupAction::Skip
        },
        None => CleanupAction::Skip,
    }
}

/// What a sweep does with the given Job: delete it when it succeeded, or when
/// it failed and was already marked; mark it when it failed and was not;
/// leave it otherwise.
pub fn cleanup_action(job: &JobSnapshot) -> (action: CleanupAction)
    ensures
        action == cleanup_action_of(*job),
{
    let marked = match &job.labels {
        Some(l) => match lookup_label(l, "socket-swap/pending-cleanup") {
            Some(v) => str_eq(v.as_str(), "true"),
            None => false,
        },
        None => false,
    };
    match &job.status {
        Some(st) => {
            let succeeded = match st.succeeded {
                Some(n) => n > 0,
                None => false,
            };
            let failed = match st.failed {
                Some(n) => n > 0,
                None => false,
            };
            if succeeded {
                CleanupAction::Delete
            } else if failed {
                if marked {
                    CleanupAction::Delete
                } else {
                    CleanupAction::MarkPendingCleanup
                }
            } else {
                CleanupAction::Skip
            }
        },
        None => CleanupAction::Skip,
    }
}

} // verus!
