//! What holds of the lifecycle of every secret, whatever the callers do.

use crate::crypto::open_spec;
use crate::error::AppError;
use crate::handlers::{opens_to, retrieve_secret_spec};
use crate::store::{
    claim_spec, create_spec, eligible, keyed_by_id, sweep_spec, ClaimView, SecretView,
};
use vstd::prelude::*;
use vstd::utf8::{encode_utf8_decode_utf8, encode_utf8_valid_utf8};

verus! {

/// One atomic step of the store.
pub enum Operation {
    Create { row: SecretView },
    Claim { id: u128, now: i64 },
    Sweep { now: i64 },
}

/// The store after one step.
pub open spec fn apply(store: Map<u128, SecretView>, step: Operation) -> Map<u128, SecretView> {
    match step {
        Operation::Create { row } => create_spec(store, row).0,
        Operation::Claim { id, now } => claim_spec(store, id, now).0,
        Operation::Sweep { now } => sweep_spec(store, now),
    }
}

/// The store after claims of `id` made one after another at the given
/// times, and what each claim returned.
pub open spec fn claims(store: Map<u128, SecretView>, id: u128, times: Seq<i64>) -> (
    Map<u128, SecretView>,
    Seq<ClaimView>,
)
    decreases times.len(),
{
    if times.len() == 0 {
        (store, Seq::empty())
    } else {
        let earlier = claims(store, id, times.drop_last());
        let last = claim_spec(earlier.0, id, times.last());
        (last.0, earlier.1.push(last.1))
    }
}

/// The store after retrievals of `id` made one after another at the given
/// times, and the answer to each.
pub open spec fn retrievals(
    store: Map<u128, SecretView>,
    key: Seq<u8>,
    id: u128,
    times: Seq<i64>,
) -> (Map<u128, SecretView>, Seq<Result<Seq<char>, AppError>>)
    decreases times.len(),
{
    if times.len() == 0 {
        (store, Seq::empty())
    } else {
        let earlier = retrievals(store, key, id, times.drop_last());
        let last = retrieve_secret_spec(earlier.0, key, Some(id), times.last());
        (last.0, earlier.1.push(last.1))
    }
}

/// The row `id` can no longer be disclosed: it is gone or claimed.
pub open spec fn spent(store: Map<u128, SecretView>, id: u128) -> bool {
    !store.dom().contains(id) || store[id].claimed
}

/// Every step of the store keeps each row filed under its own identifier.
pub proof fn lemma_rows_stay_keyed(store: Map<u128, SecretView>, step: Operation)
    requires
        keyed_by_id(store),
    ensures
        keyed_by_id(apply(store, step)),
{
}

/// No step of the store reverses a claim or changes what a row holds: a
/// row that is still there after the step has the ciphertext, nonce and
/// expiry it had, and is claimed if it was.
pub proof fn lemma_claimed_is_permanent(store: Map<u128, SecretView>, step: Operation, id: u128)
    requires
        store.dom().contains(id),
        apply(store, step).dom().contains(id),
    ensures
        apply(store, step)[id].ciphertext == store[id].ciphertext,
        apply(store, step)[id].nonce == store[id].nonce,
        apply(store, step)[id].expires_at == store[id].expires_at,
        store[id].claimed ==> apply(store, step)[id].claimed,
{
}

/// A claim discloses a row iff the row is there, unclaimed, and the time
/// is before its expiry: one microsecond before it the unclaimed row is
/// handed out, at the expiry and ever after it is not.
pub proof fn lemma_expiry_is_absolute(store: Map<u128, SecretView>, id: u128, now: i64)
    requires
        store.dom().contains(id),
        !store[id].claimed,
    ensures
        now < store[id].expires_at ==> claim_spec(store, id, now).1 == ClaimView::Found(store[id]),
        now >= store[id].expires_at ==> claim_spec(store, id, now).1 == ClaimView::Ineligible,
        claim_spec(store, id, now).1 is Found <==> eligible(store[id], now),
{
}

proof fn lemma_claims_after_first(store: Map<u128, SecretView>, id: u128, times: Seq<i64>)
    requires
        store.dom().contains(id),
        times.len() >= 1,
        eligible(store[id], times[0]),
    ensures
        claims(store, id, times).1.len() == times.len(),
        claims(store, id, times).1[0] == ClaimView::Found(store[id]),
        forall|k: int| 1 <= k < times.len() ==> !(#[trigger] claims(store, id, times).1[k] is Found),
        spent(claims(store, id, times).0, id),
    decreases times.len(),
{
    if times.len() == 1 {
        assert(times.drop_last().len() == 0);
        assert(claims(store, id, times.drop_last()).0 == store);
    } else {
        assert(times.drop_last()[0] == times[0]);
        lemma_claims_after_first(store, id, times.drop_last());
    }
}

/// At most once: of any number of claims of one secret, all made before its
/// expiry and taking effect in any order, exactly the first is handed the
/// secret as it was stored; no other claim finds it.
pub proof fn lemma_claim_at_most_once(store: Map<u128, SecretView>, id: u128, times: Seq<i64>)
    requires
        store.dom().contains(id),
        !store[id].claimed,
        times.len() >= 2,
        forall|k: int| 0 <= k < times.len() ==> times[k] < store[id].expires_at,
    ensures
        claims(store, id, times).1.len() == times.len(),
        claims(store, id, times).1[0] == ClaimView::Found(store[id]),
        forall|k: int| 1 <= k < times.len() ==> !(#[trigger] claims(store, id, times).1[k] is Found),
{
    lemma_claims_after_first(store, id, times);
}

proof fn lemma_retrievals_after_first(
    store: Map<u128, SecretView>,
    key: Seq<u8>,
    id: u128,
    value: Seq<char>,
    times: Seq<i64>,
)
    requires
        store.dom().contains(id),
        times.len() >= 1,
        eligible(store[id], times[0]),
        opens_to(key, store[id], value),
    ensures
        retrievals(store, key, id, times).1.len() == times.len(),
        retrievals(store, key, id, times).1[0] == Ok::<Seq<char>, AppError>(value),
        forall|k: int|
            1 <= k < times.len() ==> #[trigger] retrievals(store, key, id, times).1[k] == Err::<
                Seq<char>,
                AppError,
            >(AppError::Expired),
        spent(retrievals(store, key, id, times).0, id),
    decreases times.len(),
{
    if times.len() == 1 {
        assert(times.drop_last().len() == 0);
        assert(retrievals(store, key, id, times.drop_last()).0 == store);
        encode_utf8_valid_utf8(value);
        encode_utf8_decode_utf8(value);
    } else {
        assert(times.drop_last()[0] == times[0]);
        lemma_retrievals_after_first(store, key, id, value, times.drop_last());
    }
}

/// A stored secret is disclosed once: of any number of retrievals of a
/// secret whose row opens to `value`, all made before its expiry and taking
/// effect in any order, the first returns `value` and every other one gets
/// the answer given for a secret that is gone.
pub proof fn lemma_retrieve_at_most_once(
    store: Map<u128, SecretView>,
    key: Seq<u8>,
    id: u128,
    value: Seq<char>,
    times: Seq<i64>,
)
    requires
        store.dom().contains(id),
        !store[id].claimed,
        opens_to(key, store[id], value),
        times.len() >= 1,
        forall|k: int| 0 <= k < times.len() ==> times[k] < store[id].expires_at,
    ensures
        retrievals(store, key, id, times).1.len() == times.len(),
        retrievals(store, key, id, times).1[0] == Ok::<Seq<char>, AppError>(value),
        forall|k: int|
            1 <= k < times.len() ==> #[trigger] retrievals(store, key, id, times).1[k] == Err::<
                Seq<char>,
                AppError,
            >(AppError::Expired),
{
    lemma_retrievals_after_first(store, key, id, value, times);
}

/// Deleting rows is housekeeping only: a sweep keeps every eligible row as
/// it is and leaves no other, and a retrieval made at or after the time of
/// the sweep is answered as if the sweep had not run.
pub proof fn lemma_sweep_is_unobservable(
    store: Map<u128, SecretView>,
    key: Seq<u8>,
    id: u128,
    swept_at: i64,
    now: i64,
)
    requires
        swept_at <= now,
    ensures
        forall|kept: u128| #[trigger]
            sweep_spec(store, swept_at).dom().contains(kept) <==> store.dom().contains(kept)
                && eligible(store[kept], swept_at),
        forall|kept: u128| #[trigger]
            sweep_spec(store, swept_at).dom().contains(kept) ==> sweep_spec(store, swept_at)[kept]
                == store[kept],
        retrieve_secret_spec(sweep_spec(store, swept_at), key, Some(id), now).1
            == retrieve_secret_spec(store, key, Some(id), now).1,
{
}

/// A row that does not open is never disclosed: retrieving an eligible
/// secret whose ciphertext and nonce do not verify under the key is an
/// internal error with no value, and the claim is spent all the same.
pub proof fn lemma_unopenable_row_is_lost(
    store: Map<u128, SecretView>,
    key: Seq<u8>,
    id: u128,
    now: i64,
)
    requires
        store.dom().contains(id),
        eligible(store[id], now),
        open_spec(key, store[id].nonce, store[id].ciphertext) is Err,
    ensures
        retrieve_secret_spec(store, key, Some(id), now).1 == Err::<Seq<char>, AppError>(
            AppError::InternalServerError,
        ),
        AppError::InternalServerError.response_spec().status == 500,
        spent(retrieve_secret_spec(store, key, Some(id), now).0, id),
{
}

/// Absence cannot be told apart: retrieving a secret that was never
/// stored, one that was already claimed and one that has expired gives the
/// same answer, and so the same status and body.
pub proof fn lemma_absence_is_indistinguishable(
    store: Map<u128, SecretView>,
    key: Seq<u8>,
    unknown: u128,
    claimed: u128,
    expired: u128,
    now: i64,
)
    requires
        !store.dom().contains(unknown),
        store.dom().contains(claimed) && store[claimed].claimed,
        store.dom().contains(expired) && now >= store[expired].expires_at,
    ensures
        retrieve_secret_spec(store, key, Some(unknown), now).1 == Err::<Seq<char>, AppError>(
            AppError::Expired,
        ),
        retrieve_secret_spec(store, key, Some(claimed), now).1 == retrieve_secret_spec(
            store,
            key,
            Some(unknown),
            now,
        ).1,
        retrieve_secret_spec(store, key, Some(expired), now).1 == retrieve_secret_spec(
            store,
            key,
            Some(unknown),
            now,
        ).1,
        AppError::Expired.response_spec().status == 410,
{
}

} // verus!
