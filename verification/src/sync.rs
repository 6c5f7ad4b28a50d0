//! What syncing the default git library did.

use vstd::prelude::*;

verus! {

/// What `sync_default_library` did, so callers can skip re-indexing when the
/// local library is already up to date.
#[derive(Debug, Clone, Copy, PartialEq, Eq, Structural)]
pub enum SyncOutcome {
    /// The repository was freshly cloned (was absent).
    Cloned,
    /// An existing clone was fast-forwarded to new commits.
    Updated,
    /// An existing clone was already up to date; nothing changed.
    Unchanged,
}

/// The outcome of pulling an existing clone, from the merge analysis of the
/// fetched head: already up to date is `Unchanged`; a fast-forward applied to
/// the `main` branch is `Updated`; a diverged history (or no `main` branch)
/// is left as is and is `Unchanged` too.
pub fn pull_outcome(up_to_date: bool, fast_forward: bool, main_branch_found: bool) -> (r: SyncOutcome)
    ensures
        r == (if !up_to_date && fast_forward && main_branch_found {
            SyncOutcome::Updated
        } else {
            SyncOutcome::Unchanged
        }),
{
    if up_to_date {
        return SyncOutcome::Unchanged;
    }
    if fast_forward && main_branch_found {
        return SyncOutcome::Updated;
    }
    SyncOutcome::Unchanged
}

/// Whether the library changed, so that it must be indexed again.
pub fn needs_reindex(outcome: SyncOutcome) -> (r: bool)
    ensures
        r == (outcome != SyncOutcome::Unchanged),
{
    match outcome {
        SyncOutcome::Unchanged => false,
        _ => true,
    }
}

} // verus!
