use one_time_secret::claim::{
    claim_outcome, claim_step, ClaimAction, ClaimEvent, ClaimState, ClaimVerdict,
};
use one_time_secret::store::{Claim, Secret, SecretStore, StoreError};

const HOUR: i64 = 3_600_000_000;
const SECOND: i64 = 1_000_000;

fn store_with(id: u128, expires_at: i64) -> SecretStore {
    let mut store = SecretStore::new();
    assert_eq!(store.create(id, vec![1, 2, 3], vec![9; 12], expires_at), Ok(()));
    store
}

fn found(claim: Result<Claim, StoreError>) -> Secret {
    match claim {
        Ok(Claim::Found(secret)) => secret,
        _ => panic!("the secret was not handed out"),
    }
}

fn is_ineligible(claim: &Result<Claim, StoreError>) -> bool {
    matches!(claim, Ok(Claim::Ineligible))
}

fn is_not_found(claim: &Result<Claim, StoreError>) -> bool {
    matches!(claim, Ok(Claim::NotFound))
}

#[test]
fn new_store_is_empty() {
    let store = SecretStore::new();
    assert_eq!(store.len(), 0);
    assert!(!store.contains(1));
}

#[test]
fn create_inserts_an_unclaimed_row() {
    let mut store = store_with(7, HOUR);
    assert_eq!(store.len(), 1);
    assert!(store.contains(7));
    let secret = found(store.try_claim_and_fetch(7, 0));
    assert_eq!(secret.id, 7);
    assert_eq!(secret.ciphertext, vec![1, 2, 3]);
    assert_eq!(secret.nonce, vec![9; 12]);
    assert_eq!(secret.expires_at, HOUR);
    assert!(!secret.claimed);
}

#[test]
fn create_refuses_an_identifier_in_use() {
    let mut store = store_with(7, HOUR);
    assert_eq!(store.create(7, vec![4], vec![5; 12], 2 * HOUR), Err(StoreError::Conflict));
    assert_eq!(store.len(), 1);
    let secret = found(store.try_claim_and_fetch(7, 0));
    assert_eq!(secret.ciphertext, vec![1, 2, 3]);
    assert_eq!(secret.expires_at, HOUR);
}

#[test]
fn create_refuses_an_identifier_of_a_claimed_row() {
    let mut store = store_with(7, HOUR);
    found(store.try_claim_and_fetch(7, 0));
    assert_eq!(store.create(7, vec![4], vec![5; 12], HOUR), Err(StoreError::Conflict));
}

#[test]
fn claim_of_an_unknown_identifier_is_not_found() {
    let mut store = store_with(7, HOUR);
    assert!(is_not_found(&store.try_claim_and_fetch(8, 0)));
    assert_eq!(store.len(), 1);
}

#[test]
fn a_secret_is_handed_out_once() {
    let mut store = store_with(7, HOUR);
    found(store.try_claim_and_fetch(7, 10));
    assert!(store.contains(7));
    assert!(is_ineligible(&store.try_claim_and_fetch(7, 11)));
    assert!(!store.contains(7));
    assert!(is_not_found(&store.try_claim_and_fetch(7, 12)));
}

#[test]
fn of_many_claims_exactly_one_succeeds() {
    let mut store = store_with(7, HOUR);
    let mut handed_out = 0;
    for attempt in 0..10 {
        match store.try_claim_and_fetch(7, attempt) {
            Ok(Claim::Found(secret)) => {
                assert_eq!(attempt, 0);
                assert_eq!(secret.ciphertext, vec![1, 2, 3]);
                handed_out += 1;
            }
            Ok(_) => {}
            Err(_) => panic!("the store failed"),
        }
    }
    assert_eq!(handed_out, 1);
}

#[test]
fn a_secret_is_handed_out_one_second_before_its_expiry() {
    let mut store = store_with(7, HOUR);
    found(store.try_claim_and_fetch(7, HOUR - SECOND));
}

#[test]
fn a_secret_is_handed_out_one_microsecond_before_its_expiry() {
    let mut store = store_with(7, HOUR);
    found(store.try_claim_and_fetch(7, HOUR - 1));
}

#[test]
fn a_secret_is_ineligible_at_its_expiry() {
    let mut store = store_with(7, HOUR);
    assert!(is_ineligible(&store.try_claim_and_fetch(7, HOUR)));
}

#[test]
fn a_secret_is_ineligible_one_second_after_its_expiry() {
    let mut store = store_with(7, HOUR);
    assert!(is_ineligible(&store.try_claim_and_fetch(7, HOUR + SECOND)));
    assert!(!store.contains(7));
}

#[test]
fn an_expired_secret_stays_ineligible_at_an_earlier_time() {
    let mut store = store_with(7, HOUR);
    assert!(is_ineligible(&store.try_claim_and_fetch(7, HOUR + SECOND)));
    assert!(is_not_found(&store.try_claim_and_fetch(7, 0)));
}

#[test]
fn claims_of_one_secret_leave_the_others() {
    let mut store = store_with(7, HOUR);
    assert_eq!(store.create(8, vec![8], vec![8; 12], HOUR), Ok(()));
    found(store.try_claim_and_fetch(7, 0));
    let other = found(store.try_claim_and_fetch(8, 0));
    assert_eq!(other.id, 8);
    assert_eq!(other.ciphertext, vec![8]);
}

#[test]
fn conditional_claim_marks_an_eligible_row() {
    let mut store = store_with(7, HOUR);
    let secret = store.claim_if_eligible(7, 0).unwrap();
    assert_eq!(secret.id, 7);
    assert!(!secret.claimed);
    assert!(store.contains(7));
    assert!(store.claim_if_eligible(7, 0).is_none());
    assert!(store.contains(7));
}

#[test]
fn conditional_claim_leaves_an_expired_row() {
    let mut store = store_with(7, HOUR);
    assert!(store.claim_if_eligible(7, HOUR).is_none());
    assert!(store.contains(7));
    assert!(store.claim_if_eligible(8, 0).is_none());
}

#[test]
fn delete_removes_the_row() {
    let mut store = store_with(7, HOUR);
    assert!(!store.delete(8));
    assert!(store.delete(7));
    assert!(!store.delete(7));
    assert_eq!(store.len(), 0);
}

#[test]
fn sweep_deletes_claimed_and_expired_rows() {
    let mut store = SecretStore::new();
    store.create(1, vec![1], vec![0; 12], 100).unwrap();
    store.create(2, vec![2], vec![0; 12], 200).unwrap();
    store.create(3, vec![3], vec![0; 12], 300).unwrap();
    store.create(4, vec![4], vec![0; 12], 400).unwrap();
    found(store.try_claim_and_fetch(4, 0));
    assert_eq!(store.sweep_expired(200), 3);
    assert_eq!(store.len(), 1);
    assert!(store.contains(3));
    assert_eq!(store.sweep_expired(200), 0);
    let kept = found(store.try_claim_and_fetch(3, 299));
    assert_eq!(kept.ciphertext, vec![3]);
}

#[test]
fn sweep_of_an_empty_store_deletes_nothing() {
    let mut store = SecretStore::new();
    assert_eq!(store.sweep_expired(0), 0);
}

#[test]
fn sweep_keeps_rows_that_expire_later() {
    let mut store = store_with(7, HOUR);
    assert_eq!(store.sweep_expired(HOUR - 1), 0);
    assert!(store.contains(7));
    assert_eq!(store.sweep_expired(HOUR), 1);
    assert!(!store.contains(7));
}

#[test]
fn sweep_does_not_change_what_a_claim_returns() {
    let mut swept = store_with(7, HOUR);
    let mut unswept = store_with(7, HOUR);
    swept.sweep_expired(HOUR);
    assert!(is_not_found(&swept.try_claim_and_fetch(7, HOUR)));
    assert!(is_ineligible(&unswept.try_claim_and_fetch(7, HOUR)));
}

#[test]
fn a_claim_begins_with_the_conditional_write() {
    assert_eq!(
        claim_step(ClaimState::Start, ClaimEvent::Begin),
        (ClaimState::Updating, ClaimAction::ConditionalUpdate)
    );
}

#[test]
fn a_write_that_changed_a_row_discloses() {
    assert_eq!(
        claim_step(ClaimState::Updating, ClaimEvent::Updated { rows: 1 }),
        (ClaimState::Done, ClaimAction::Finish(ClaimVerdict::Disclose))
    );
}

#[test]
fn a_write_that_changed_nothing_probes() {
    assert_eq!(
        claim_step(ClaimState::Updating, ClaimEvent::Updated { rows: 0 }),
        (ClaimState::Probing, ClaimAction::Probe)
    );
}

#[test]
fn a_write_that_failed_is_unavailable() {
    assert_eq!(
        claim_step(ClaimState::Updating, ClaimEvent::Failed),
        (ClaimState::Done, ClaimAction::Finish(ClaimVerdict::Unavailable))
    );
}

#[test]
fn a_probe_decides_between_not_found_and_deletion() {
    assert_eq!(
        claim_step(ClaimState::Probing, ClaimEvent::Probed { exists: false }),
        (ClaimState::Done, ClaimAction::Finish(ClaimVerdict::NotFound))
    );
    assert_eq!(
        claim_step(ClaimState::Probing, ClaimEvent::Probed { exists: true }),
        (ClaimState::Deleting, ClaimAction::Delete)
    );
    assert_eq!(
        claim_step(ClaimState::Probing, ClaimEvent::Failed),
        (ClaimState::Done, ClaimAction::Finish(ClaimVerdict::NotFound))
    );
}

#[test]
fn a_failed_deletion_does_not_change_the_verdict() {
    assert_eq!(
        claim_step(ClaimState::Deleting, ClaimEvent::Deleted),
        (ClaimState::Done, ClaimAction::Finish(ClaimVerdict::Ineligible))
    );
    assert_eq!(
        claim_step(ClaimState::Deleting, ClaimEvent::Failed),
        (ClaimState::Done, ClaimAction::Finish(ClaimVerdict::Ineligible))
    );
}

#[test]
fn an_event_out_of_turn_is_unavailable() {
    let unavailable = (ClaimState::Done, ClaimAction::Finish(ClaimVerdict::Unavailable));
    assert_eq!(claim_step(ClaimState::Start, ClaimEvent::Updated { rows: 1 }), unavailable);
    assert_eq!(claim_step(ClaimState::Start, ClaimEvent::Failed), unavailable);
    assert_eq!(claim_step(ClaimState::Updating, ClaimEvent::Begin), unavailable);
    assert_eq!(claim_step(ClaimState::Probing, ClaimEvent::Updated { rows: 1 }), unavailable);
    assert_eq!(claim_step(ClaimState::Deleting, ClaimEvent::Probed { exists: true }), unavailable);
    assert_eq!(claim_step(ClaimState::Done, ClaimEvent::Begin), unavailable);
    assert_eq!(claim_step(ClaimState::Done, ClaimEvent::Updated { rows: 1 }), unavailable);
}

#[test]
fn a_verdict_and_a_row_make_the_outcome() {
    let row = Secret { id: 7, ciphertext: vec![1], nonce: vec![2; 12], expires_at: 5, claimed: false };
    let secret = found(claim_outcome(ClaimVerdict::Disclose, Some(row)));
    assert_eq!(secret.id, 7);
    assert_eq!(secret.ciphertext, vec![1]);
    assert!(matches!(claim_outcome(ClaimVerdict::Disclose, None), Err(StoreError::Unavailable)));
    assert!(is_not_found(&claim_outcome(ClaimVerdict::NotFound, None)));
    assert!(is_ineligible(&claim_outcome(ClaimVerdict::Ineligible, None)));
    assert!(matches!(claim_outcome(ClaimVerdict::Unavailable, None), Err(StoreError::Unavailable)));
}
