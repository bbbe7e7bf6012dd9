//! Deletion lifecycle of a discovered entry. Only the consumer of a scan
//! drives these transitions; the scan engine never touches them. The normal
//! path runs forward, a failed removal falls back to the retryable start
//! state, and a finished deletion can never be undone.

use vstd::prelude::*;

verus! {

/// Deletion state of one discovered entry.
#[derive(Debug, Clone, Copy, PartialEq, Eq, Structural)]
pub enum DeleteStatus {
    NotDeleted,
    Deleting,
    Deleted,
}

/// What can happen to an entry: the user asks for deletion, or an attempted
/// removal reports its outcome.
#[derive(Debug, Clone, Copy, PartialEq, Eq, Structural)]
pub enum DeleteAction {
    RequestDelete,
    RemovalSucceeded,
    RemovalFailed,
}

/// The transition table: a request starts removal only from `NotDeleted`
/// (re-entrant requests are ignored, a finished entry is a no-op), success
/// finishes it, failure falls back to `NotDeleted` so it can be retried.
/// A removal outcome arriving outside `Deleting` changes nothing.
pub open spec fn spec_step(s: DeleteStatus, a: DeleteAction) -> DeleteStatus {
    match (s, a) {
        (DeleteStatus::NotDeleted, DeleteAction::RequestDelete) => DeleteStatus::Deleting,
        (DeleteStatus::Deleting, DeleteAction::RequestDelete) => DeleteStatus::Deleting,
        (DeleteStatus::Deleting, DeleteAction::RemovalSucceeded) => DeleteStatus::Deleted,
        (DeleteStatus::Deleting, DeleteAction::RemovalFailed) => DeleteStatus::NotDeleted,
        (DeleteStatus::Deleted, _) => DeleteStatus::Deleted,
        (other, _) => other,
    }
}

/// The state after a whole sequence of actions.
pub open spec fn spec_run(s: DeleteStatus, acts: Seq<DeleteAction>) -> DeleteStatus
    decreases acts.len(),
{
    if acts.len() == 0 {
        s
    } else {
        spec_run(spec_step(s, acts[0]), acts.drop_first())
    }
}

/// One lifecycle transition, exactly as the table defines it.
pub fn delete_step(s: DeleteStatus, a: DeleteAction) -> (r: DeleteStatus)
    ensures
        r == spec_step(s, a),
{
    match (s, a) {
        (DeleteStatus::NotDeleted, DeleteAction::RequestDelete) => DeleteStatus::Deleting,
        (DeleteStatus::Deleting, DeleteAction::RequestDelete) => DeleteStatus::Deleting,
        (DeleteStatus::Deleting, DeleteAction::RemovalSucceeded) => DeleteStatus::Deleted,
        (DeleteStatus::Deleting, DeleteAction::RemovalFailed) => DeleteStatus::NotDeleted,
        (DeleteStatus::Deleted, _) => DeleteStatus::Deleted,
        (other, _) => other,
    }
}

/// Law: `Deleted` is absorbing. Once an entry is deleted, no sequence of
/// further actions moves it anywhere else — a second deletion is a no-op.
pub proof fn lemma_deleted_is_final(acts: Seq<DeleteAction>)
    ensures
        spec_run(DeleteStatus::Deleted, acts) == DeleteStatus::Deleted,
    decreases acts.len(),
{
    if acts.len() > 0 {
        lemma_deleted_is_final(acts.drop_first());
    }
}

/// Law: the table is closed over its three states; from any start, any
/// sequence of actions ends in `NotDeleted`, `Deleting` or `Deleted`.
pub proof fn lemma_lifecycle_closed(s: DeleteStatus, acts: Seq<DeleteAction>)
    ensures
        spec_run(s, acts) is NotDeleted || spec_run(s, acts) is Deleting || spec_run(
            s,
            acts,
        ) is Deleted,
{
}

} // verus!
