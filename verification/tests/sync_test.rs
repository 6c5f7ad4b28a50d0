use hymnal_core::sync::{needs_reindex, pull_outcome, SyncOutcome};

#[test]
fn pull_outcomes() {
    assert_eq!(pull_outcome(true, false, true), SyncOutcome::Unchanged);
    assert_eq!(pull_outcome(true, true, true), SyncOutcome::Unchanged);
    assert_eq!(pull_outcome(false, true, true), SyncOutcome::Updated);
    assert_eq!(pull_outcome(false, true, false), SyncOutcome::Unchanged);
    assert_eq!(pull_outcome(false, false, true), SyncOutcome::Unchanged);
}

#[test]
fn only_changes_need_reindexing() {
    assert!(needs_reindex(SyncOutcome::Cloned));
    assert!(needs_reindex(SyncOutcome::Updated));
    assert!(!needs_reindex(SyncOutcome::Unchanged));
}
