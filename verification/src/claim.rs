//! The claim protocol: which statement to put to the persistence layer
//! next, and what the claim ends in. The one conditional write decides;
//! nothing read before or after it can make a secret disclosable.

use crate::store::{Claim, ClaimView, Secret, SecretView, StoreError};
use vstd::prelude::*;

verus! {

/// How far a claim has come.
#[derive(Clone, Copy, Debug, PartialEq, Eq, Structural)]
pub enum ClaimState {
    /// Nothing was asked yet.
    Start,
    /// The conditional write was put.
    Updating,
    /// The write changed no row; the row's existence was asked for.
    Probing,
    /// The row exists but is ineligible; its deletion was asked for.
    Deleting,
    /// The claim has ended.
    Done,
}

/// What the persistence layer reported for the statement last put to it.
#[derive(Clone, Copy, Debug, PartialEq, Eq, Structural)]
pub enum ClaimEvent {
    /// The claim begins.
    Begin,
    /// The conditional write ran and changed this many rows.
    Updated { rows: u64 },
    /// The probe ran and says whether a row with the identifier exists.
    Probed { exists: bool },
    /// The deletion ran.
    Deleted,
    /// The statement could not be carried out.
    Failed,
}

/// What a claim ends in.
#[derive(Clone, Copy, Debug, PartialEq, Eq, Structural)]
pub enum ClaimVerdict {
    /// The conditional write claimed the row: hand out what it returned.
    Disclose,
    /// No row has the identifier.
    NotFound,
    /// The row was already claimed or had expired.
    Ineligible,
    /// The claim could not be carried out.
    Unavailable,
}

/// What to do next.
#[derive(Clone, Copy, Debug, PartialEq, Eq, Structural)]
pub enum ClaimAction {
    /// Mark the row claimed if it is unclaimed and unexpired, in one
    /// statement, and report how many rows that changed.
    ConditionalUpdate,
    /// Ask whether a row with the identifier exists.
    Probe,
    /// Delete the row; a failure to do so is ignored.
    Delete,
    /// Stop with this verdict.
    Finish(ClaimVerdict),
}

/// The next state and action for a state and the event that reached it.
/// A failed conditional write ends the claim as unavailable; once the write
/// has run and changed nothing, later failures no longer matter: a failed
/// probe is answered as not found, a failed deletion is ignored.
pub open spec fn claim_step_spec(state: ClaimState, event: ClaimEvent) -> (ClaimState, ClaimAction) {
    match (state, event) {
        (ClaimState::Start, ClaimEvent::Begin) => (
            ClaimState::Updating,
            ClaimAction::ConditionalUpdate,
        ),
        (ClaimState::Updating, ClaimEvent::Updated { rows }) => if rows > 0 {
            (ClaimState::Done, ClaimAction::Finish(ClaimVerdict::Disclose))
        } else {
            (ClaimState::Probing, ClaimAction::Probe)
        },
        (ClaimState::Probing, ClaimEvent::Probed { exists }) => if exists {
            (ClaimState::Deleting, ClaimAction::Delete)
        } else {
            (ClaimState::Done, ClaimAction::Finish(ClaimVerdict::NotFound))
        },
        (ClaimState::Probing, ClaimEvent::Failed) => (
            ClaimState::Done,
            ClaimAction::Finish(ClaimVerdict::NotFound),
        ),
        (ClaimState::Deleting, ClaimEvent::Deleted) => (
            ClaimState::Done,
            ClaimAction::Finish(ClaimVerdict::Ineligible),
        ),
        (ClaimState::Deleting, ClaimEvent::Failed) => (
            ClaimState::Done,
            ClaimAction::Finish(ClaimVerdict::Ineligible),
        ),
        _ => (ClaimState::Done, ClaimAction::Finish(ClaimVerdict::Unavailable)),
    }
}

/// How many statements a claim in this state may still put.
pub open spec fn steps_left(state: ClaimState) -> nat {
    match state {
        ClaimState::Start => 4,
        ClaimState::Updating => 3,
        ClaimState::Probing => 2,
        ClaimState::Deleting => 1,
        ClaimState::Done => 0,
    }
}

/// What a claim returns for a verdict and the row, if any, that the
/// conditional write handed back.
pub open spec fn claim_outcome_spec(verdict: ClaimVerdict, row: Option<SecretView>) -> Result<
    ClaimView,
    StoreError,
> {
    match verdict {
        ClaimVerdict::Disclose => match row {
            Some(secret) => Ok(ClaimView::Found(secret)),
            None => Err(StoreError::Unavailable),
        },
        ClaimVerdict::NotFound => Ok(ClaimView::NotFound),
        ClaimVerdict::Ineligible => Ok(ClaimView::Ineligible),
        ClaimVerdict::Unavailable => Err(StoreError::Unavailable),
    }
}

/// The mathematical value of what a claim returns.
pub open spec fn claim_result_view(claim: Result<Claim, StoreError>) -> Result<
    ClaimView,
    StoreError,
> {
    match claim {
        Ok(found) => Ok(found@),
        Err(e) => Err(e),
    }
}

/// The mathematical value of a row that may be absent.
pub open spec fn row_view(row: Option<Secret>) -> Option<SecretView> {
    match row {
        Some(secret) => Some(secret@),
        None => None,
    }
}

/// Decides the next statement of a claim, or its end.
pub fn claim_step(state: ClaimState, event: ClaimEvent) -> (next: (ClaimState, ClaimAction))
    ensures
        next == claim_step_spec(state, event),
{
    match (state, event) {
        (ClaimState::Start, ClaimEvent::Begin) => (
            ClaimState::Updating,
            ClaimAction::ConditionalUpdate,
        ),
        (ClaimState::Updating, ClaimEvent::Updated { rows }) => if rows > 0 {
            (ClaimState::Done, ClaimAction::Finish(ClaimVerdict::Disclose))
        } else {
            (ClaimState::Probing, ClaimAction::Probe)
        },
        (ClaimState::Probing, ClaimEvent::Probed { exists }) => if exists {
            (ClaimState::Deleting, ClaimAction::Delete)
        } else {
            (ClaimState::Done, ClaimAction::Finish(ClaimVerdict::NotFound))
        },
        (ClaimState::Probing, ClaimEvent::Failed) => (
            ClaimState::Done,
            ClaimAction::Finish(ClaimVerdict::NotFound),
        ),
        (ClaimState::Deleting, ClaimEvent::Deleted) => (
            ClaimState::Done,
            ClaimAction::Finish(ClaimVerdict::Ineligible),
        ),
        (ClaimState::Deleting, ClaimEvent::Failed) => (
            ClaimState::Done,
            ClaimAction::Finish(ClaimVerdict::Ineligible),
        ),
        _ => (ClaimState::Done, ClaimAction::Finish(ClaimVerdict::Unavailable)),
    }
}

/// Puts a verdict and the row that the conditional write handed back
/// together into what the claim returns.
pub fn claim_outcome(verdict: ClaimVerdict, row: Option<Secret>) -> (claim: Result<
    Claim,
    StoreError,
>)
    ensures
        claim_result_view(claim) == claim_outcome_spec(verdict, row_view(row)),
{
    match verdict {
        ClaimVerdict::Disclose => match row {
            Some(secret) => Ok(Claim::Found(secret)),
            None => Err(StoreError::Unavailable),
        },
        ClaimVerdict::NotFound => Ok(Claim::NotFound),
        ClaimVerdict::Ineligible => Ok(Claim::Ineligible),
        ClaimVerdict::Unavailable => Err(StoreError::Unavailable),
    }
}

/// Every step brings a claim nearer its end, and a claim ends with a
/// verdict exactly when it reaches `Done`.
pub proof fn lemma_claim_step_advances(state: ClaimState, event: ClaimEvent)
    ensures
        state != ClaimState::Done ==> steps_left(claim_step_spec(state, event).0) < steps_left(
            state,
        ),
        claim_step_spec(state, event).1 is Finish <==> claim_step_spec(state, event).0
            == ClaimState::Done,
{
}

/// A claim ends in disclosure only straight after a conditional write that
/// changed a row: no probe, deletion or failure ever leads to disclosure.
pub proof fn lemma_only_the_write_discloses(state: ClaimState, event: ClaimEvent)
    ensures
        claim_step_spec(state, event).1 == ClaimAction::Finish(ClaimVerdict::Disclose) <==> (state
            == ClaimState::Updating && event is Updated && event->rows > 0),
{
}

} // verus!
