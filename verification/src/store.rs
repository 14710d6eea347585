//! The secret store: one row per identifier, claimed at most once and
//! ineligible from its expiry on.

use crate::claim::{
    claim_outcome, claim_step, row_view, steps_left, ClaimAction, ClaimEvent, ClaimState,
};
use vstd::prelude::*;

verus! {

/// A stored secret. Times are microseconds since the Unix epoch.
pub struct Secret {
    pub id: u128,
    pub ciphertext: Vec<u8>,
    pub nonce: Vec<u8>,
    pub expires_at: i64,
    pub claimed: bool,
}

/// The mathematical value of a stored secret.
pub struct SecretView {
    pub id: u128,
    pub ciphertext: Seq<u8>,
    pub nonce: Seq<u8>,
    pub expires_at: i64,
    pub claimed: bool,
}

impl View for Secret {
    type V = SecretView;

    open spec fn view(&self) -> SecretView {
        SecretView {
            id: self.id,
            ciphertext: self.ciphertext@,
            nonce: self.nonce@,
            expires_at: self.expires_at,
            claimed: self.claimed,
        }
    }
}

/// Why the store refused a write.
#[derive(Clone, Copy, Debug, PartialEq, Eq, Structural)]
pub enum StoreError {
    /// A row with that identifier already exists.
    Conflict,
    /// The persistence layer could not be reached.
    Unavailable,
}

/// What an attempt to claim a secret found.
pub enum Claim {
    /// The row was eligible and is now claimed; this is the row as it was
    /// before the claim.
    Found(Secret),
    /// No row has that identifier.
    NotFound,
    /// The row was already claimed or had expired.
    Ineligible,
}

/// The mathematical value of a `Claim`.
pub enum ClaimView {
    Found(SecretView),
    NotFound,
    Ineligible,
}

impl View for Claim {
    type V = ClaimView;

    open spec fn view(&self) -> ClaimView {
        match self {
            Claim::Found(secret) => ClaimView::Found(secret@),
            Claim::NotFound => ClaimView::NotFound,
            Claim::Ineligible => ClaimView::Ineligible,
        }
    }
}

/// A secret may be disclosed iff it is unclaimed and has not expired.
pub open spec fn eligible(secret: SecretView, now: i64) -> bool {
    !secret.claimed && now < secret.expires_at
}

/// The row that `create` writes.
pub open spec fn fresh_row(
    id: u128,
    ciphertext: Seq<u8>,
    nonce: Seq<u8>,
    expires_at: i64,
) -> SecretView {
    SecretView { id, ciphertext, nonce, expires_at, claimed: false }
}

/// The store after an attempt to insert `row`, and what the attempt returns.
pub open spec fn create_spec(store: Map<u128, SecretView>, row: SecretView) -> (
    Map<u128, SecretView>,
    Result<(), StoreError>,
) {
    if store.dom().contains(row.id) {
        (store, Err(StoreError::Conflict))
    } else {
        (store.insert(row.id, row), Ok(()))
    }
}

/// The row `secret` once it has been claimed.
pub open spec fn claimed_row(secret: SecretView) -> SecretView {
    SecretView { claimed: true, ..secret }
}

/// The store after an attempt to claim `id` at time `now`, and what the
/// attempt returns. An eligible row is marked claimed and handed out as it
/// was; an ineligible row is deleted.
pub open spec fn claim_spec(store: Map<u128, SecretView>, id: u128, now: i64) -> (
    Map<u128, SecretView>,
    ClaimView,
) {
    if !store.dom().contains(id) {
        (store, ClaimView::NotFound)
    } else if eligible(store[id], now) {
        (store.insert(id, claimed_row(store[id])), ClaimView::Found(store[id]))
    } else {
        (store.remove(id), ClaimView::Ineligible)
    }
}

/// The store after the conditional write for `id` at time `now`, and the
/// row it hands back: an eligible row is marked claimed and returned as it
/// was; otherwise nothing changes.
pub open spec fn conditional_claim_spec(store: Map<u128, SecretView>, id: u128, now: i64) -> (
    Map<u128, SecretView>,
    Option<SecretView>,
) {
    if store.dom().contains(id) && eligible(store[id], now) {
        (store.insert(id, claimed_row(store[id])), Some(store[id]))
    } else {
        (store, None)
    }
}

/// The store after a sweep at time `now`: the eligible rows, unchanged.
pub open spec fn sweep_spec(store: Map<u128, SecretView>, now: i64) -> Map<u128, SecretView> {
    Map::new(|id: u128| store.dom().contains(id) && eligible(store[id], now), |id: u128| store[id])
}

/// Every row is filed under its own identifier.
pub open spec fn keyed_by_id(store: Map<u128, SecretView>) -> bool {
    forall|id: u128| store.dom().contains(id) ==> (#[trigger] store[id]).id == id
}

/// Where a claim of `id` stands: what the store and the row handed back
/// must be for the state reached and the event that reached it.
spec fn claim_in_progress(
    before: Map<u128, SecretView>,
    current: Map<u128, SecretView>,
    row: Option<SecretView>,
    id: u128,
    now: i64,
    state: ClaimState,
    event: ClaimEvent,
) -> bool {
    match state {
        ClaimState::Start => event == ClaimEvent::Begin && current == before && row is None,
        ClaimState::Updating => {
            &&& event is Updated
            &&& (event->rows > 0 <==> row is Some)
            &&& (current, row) == conditional_claim_spec(before, id, now)
        },
        ClaimState::Probing => {
            &&& event == (ClaimEvent::Probed { exists: before.dom().contains(id) })
            &&& current == before
            &&& row is None
            &&& conditional_claim_spec(before, id, now).1 is None
        },
        ClaimState::Deleting => {
            &&& event == ClaimEvent::Deleted
            &&& current == before.remove(id)
            &&& row is None
            &&& before.dom().contains(id)
            &&& !eligible(before[id], now)
        },
        ClaimState::Done => false,
    }
}

spec fn holds(rows: Seq<Secret>, id: u128) -> bool {
    exists|i: int| 0 <= i < rows.len() && (#[trigger] rows[i]).id == id
}

spec fn position(rows: Seq<Secret>, id: u128) -> int {
    choose|i: int| 0 <= i < rows.len() && (#[trigger] rows[i]).id == id
}

spec fn distinct(rows: Seq<Secret>) -> bool {
    forall|i: int, j: int|
        0 <= i < j < rows.len() ==> (#[trigger] rows[i]).id != (#[trigger] rows[j]).id
}

spec fn model(rows: Seq<Secret>) -> Map<u128, SecretView> {
    Map::new(|id: u128| holds(rows, id), |id: u128| rows[position(rows, id)]@)
}

proof fn lemma_model_at(rows: Seq<Secret>, i: int)
    requires
        distinct(rows),
        0 <= i < rows.len(),
    ensures
        model(rows).dom().contains(rows[i].id),
        model(rows)[rows[i].id] == rows[i]@,
{
    let id = rows[i].id;
    assert(holds(rows, id));
    let p = position(rows, id);
    assert(0 <= p < rows.len() && rows[p].id == id);
    if p < i {
        assert(rows[p].id != rows[i].id);
    } else if i < p {
        assert(rows[i].id != rows[p].id);
    }
}

proof fn lemma_model_keyed(rows: Seq<Secret>)
    ensures
        keyed_by_id(model(rows)),
{
    assert forall|id: u128| model(rows).dom().contains(id) implies (#[trigger] model(rows)[id]).id
        == id by {
        assert(holds(rows, id));
    }
}

proof fn lemma_push(rows: Seq<Secret>, row: Secret)
    requires
        distinct(rows),
        !holds(rows, row.id),
    ensures
        distinct(rows.push(row)),
        model(rows.push(row)) == model(rows).insert(row.id, row@),
{
    let grown = rows.push(row);
    assert forall|i: int, j: int| 0 <= i < j < grown.len() implies (#[trigger] grown[i]).id != (
    #[trigger] grown[j]).id by {
        if j == rows.len() {
            assert(rows[i].id != row.id);
        } else {
            assert(rows[i].id != rows[j].id);
        }
    }
    assert forall|id: u128| model(grown).dom().contains(id) <==> model(rows).insert(
        row.id,
        row@,
    ).dom().contains(id) by {
        if holds(grown, id) {
            let p = position(grown, id);
            if p < rows.len() {
                assert(rows[p].id == id);
            }
        }
        if holds(rows, id) {
            let p = position(rows, id);
            assert(grown[p].id == id);
        }
        if id == row.id {
            assert(grown[rows.len() as int].id == id);
        }
    }
    assert forall|id: u128| model(grown).dom().contains(id) implies model(grown)[id] == model(
        rows,
    ).insert(row.id, row@)[id] by {
        if id == row.id {
            lemma_model_at(grown, rows.len() as int);
        } else {
            let p = position(rows, id);
            assert(holds(rows, id));
            lemma_model_at(rows, p);
            lemma_model_at(grown, p);
        }
    }
    assert(model(grown) =~= model(rows).insert(row.id, row@));
}

proof fn lemma_remove(rows: Seq<Secret>, i: int)
    requires
        distinct(rows),
        0 <= i < rows.len(),
    ensures
        distinct(rows.remove(i)),
        !holds(rows.remove(i), rows[i].id),
        model(rows.remove(i)) == model(rows).remove(rows[i].id),
{
    let shrunk = rows.remove(i);
    let gone = rows[i].id;
    assert forall|a: int| 0 <= a < shrunk.len() implies (#[trigger] shrunk[a]) == rows[if a < i {
        a
    } else {
        a + 1
    }] by {}
    assert forall|a: int, b: int| 0 <= a < b < shrunk.len() implies (#[trigger] shrunk[a]).id != (
    #[trigger] shrunk[b]).id by {
        let first = if a < i {
            a
        } else {
            a + 1
        };
        let second = if b < i {
            b
        } else {
            b + 1
        };
        assert(rows[first].id != rows[second].id);
    }
    if holds(shrunk, gone) {
        let p = position(shrunk, gone);
        let origin = if p < i {
            p
        } else {
            p + 1
        };
        assert(shrunk[p] == rows[origin]);
        if origin < i {
            assert(rows[origin].id != rows[i].id);
        } else {
            assert(rows[i].id != rows[origin].id);
        }
    }
    assert forall|id: u128| model(shrunk).dom().contains(id) <==> model(rows).remove(
        gone,
    ).dom().contains(id) by {
        if holds(shrunk, id) {
            let p = position(shrunk, id);
            let origin = if p < i {
                p
            } else {
                p + 1
            };
            assert(shrunk[p] == rows[origin]);
            assert(rows[origin].id == id);
        }
        if holds(rows, id) && id != gone {
            let p = position(rows, id);
            let q = if p < i {
                p
            } else {
                p - 1
            };
            assert(shrunk[q] == rows[p]);
            assert(shrunk[q].id == id);
        }
    }
    assert forall|id: u128| model(shrunk).dom().contains(id) implies model(shrunk)[id] == model(
        rows,
    ).remove(gone)[id] by {
        let p = position(shrunk, id);
        assert(holds(shrunk, id));
        let origin = if p < i {
            p
        } else {
            p + 1
        };
        assert(shrunk[p] == rows[origin]);
        lemma_model_at(shrunk, p);
        lemma_model_at(rows, origin);
    }
    assert(model(shrunk) =~= model(rows).remove(gone));
}

proof fn lemma_model_len(rows: Seq<Secret>)
    requires
        distinct(rows),
    ensures
        model(rows).dom().finite(),
        model(rows).dom().len() == rows.len(),
    decreases rows.len(),
{
    if rows.len() == 0 {
        assert(model(rows).dom() =~= Set::<u128>::empty());
    } else {
        let front = rows.drop_last();
        let last = rows.last();
        assert(rows =~= front.push(last));
        assert forall|i: int, j: int| 0 <= i < j < front.len() implies (#[trigger] front[i]).id != (
        #[trigger] front[j]).id by {
            assert(rows[i].id != rows[j].id);
        }
        if holds(front, last.id) {
            let p = position(front, last.id);
            assert(rows[p].id != rows[rows.len() - 1].id);
        }
        lemma_model_len(front);
        lemma_push(front, last);
        assert(model(rows).dom() =~= model(front).dom().insert(last.id));
    }
}

/// An in-memory secret store. Every operation has exclusive access, so
/// each one is a single atomic step: concurrent callers take effect one
/// after another.
pub struct SecretStore {
    rows: Vec<Secret>,
}

fn find(rows: &Vec<Secret>, id: u128) -> (found: Option<usize>)
    ensures
        match found {
            Some(i) => i < rows@.len() && rows@[i as int].id == id,
            None => !holds(rows@, id),
        },
{
    let mut i: usize = 0;
    while i < rows.len()
        invariant
            i <= rows@.len(),
            forall|k: int| 0 <= k < i ==> (#[trigger] rows@[k]).id != id,
        decreases rows@.len() - i,
    {
        if rows[i].id == id {
            return Some(i);
        }
        i += 1;
    }
    None
}

impl SecretStore {
    #[verifier::type_invariant]
    spec fn one_row_per_id(self) -> bool {
        distinct(self.rows@)
    }

    /// The rows, by identifier.
    pub closed spec fn view(&self) -> Map<u128, SecretView> {
        model(self.rows@)
    }

    /// An empty store.
    pub fn new() -> (store: SecretStore)
        ensures
            store@ == Map::<u128, SecretView>::empty(),
    {
        let store = SecretStore { rows: Vec::new() };
        assert(store@ =~= Map::<u128, SecretView>::empty());
        store
    }

    /// The rows of any store are filed under their own identifiers.
    pub proof fn lemma_view_is_keyed(&self)
        ensures
            keyed_by_id(self@),
    {
        lemma_model_keyed(self.rows@);
    }

    /// The number of rows.
    pub fn len(&self) -> (n: usize)
        ensures
            self@.dom().finite(),
            n == self@.dom().len(),
    {
        proof {
            use_type_invariant(self);
            lemma_model_len(self.rows@);
        }
        self.rows.len()
    }

    /// Whether a row with this identifier exists, eligible or not.
    pub fn contains(&self, id: u128) -> (present: bool)
        ensures
            present == self@.dom().contains(id),
    {
        find(&self.rows, id).is_some()
    }

    /// Inserts a new, unclaimed row. Fails with `Conflict`, and changes
    /// nothing, iff the identifier is already in use.
    pub fn create(
        &mut self,
        id: u128,
        ciphertext: Vec<u8>,
        nonce: Vec<u8>,
        expires_at: i64,
    ) -> (created: Result<(), StoreError>)
        ensures
            (final(self)@, created) == create_spec(
                old(self)@,
                fresh_row(id, ciphertext@, nonce@, expires_at),
            ),
    {
        proof {
            use_type_invariant(&*self);
        }
        match find(&self.rows, id) {
            Some(_) => Err(StoreError::Conflict),
            None => {
                let row = Secret { id, ciphertext, nonce, expires_at, claimed: false };
                let mut rows = Vec::new();
                std::mem::swap(&mut rows, &mut self.rows);
                proof {
                    lemma_push(rows@, row);
                }
                rows.push(row);
                self.rows = rows;
                Ok(())
            },
        }
    }

    /// The conditional write: marks the row `id` claimed iff it is there,
    /// unclaimed and unexpired at `now`, and then returns the row as it was
    /// before. Nothing else is changed, and nothing at all if it returns
    /// `None`.
    pub fn claim_if_eligible(&mut self, id: u128, now: i64) -> (claimed: Option<Secret>)
        ensures
            (final(self)@, row_view(claimed)) == conditional_claim_spec(old(self)@, id, now),
            claimed matches Some(secret) ==> secret.id == id,
    {
        proof {
            use_type_invariant(&*self);
        }
        match find(&self.rows, id) {
            None => None,
            Some(i) => {
                proof {
                    lemma_model_at(self.rows@, i as int);
                }
                if self.rows[i].claimed || now >= self.rows[i].expires_at {
                    return None;
                }
                let mut rows = Vec::new();
                std::mem::swap(&mut rows, &mut self.rows);
                proof {
                    lemma_remove(rows@, i as int);
                }
                let secret = rows.remove(i);
                let marked = Secret {
                    id: secret.id,
                    ciphertext: secret.ciphertext.clone(),
                    nonce: secret.nonce.clone(),
                    expires_at: secret.expires_at,
                    claimed: true,
                };
                proof {
                    assert(marked.ciphertext@ =~= secret.ciphertext@);
                    assert(marked.nonce@ =~= secret.nonce@);
                    lemma_push(rows@, marked);
                    assert(model(rows@.push(marked)) =~= old(self)@.insert(
                        id,
                        claimed_row(secret@),
                    ));
                }
                rows.push(marked);
                self.rows = rows;
                Some(secret)
            },
        }
    }

    /// Deletes the row `id`, if there is one, and says whether there was.
    pub fn delete(&mut self, id: u128) -> (deleted: bool)
        ensures
            final(self)@ == old(self)@.remove(id),
            deleted == old(self)@.dom().contains(id),
    {
        proof {
            use_type_invariant(&*self);
        }
        match find(&self.rows, id) {
            None => {
                assert(old(self)@.remove(id) =~= old(self)@);
                false
            },
            Some(i) => {
                let mut rows = Vec::new();
                std::mem::swap(&mut rows, &mut self.rows);
                proof {
                    lemma_model_at(rows@, i as int);
                    lemma_remove(rows@, i as int);
                }
                rows.remove(i);
                self.rows = rows;
                true
            },
        }
    }

    /// Claims the secret `id` at time `now`. The conditional write is the
    /// one step that decides: exactly an eligible row is marked claimed and
    /// returned as it was before. An ineligible row is deleted. The store
    /// is held exclusively throughout, so the claim is one atomic step.
    pub fn try_claim_and_fetch(&mut self, id: u128, now: i64) -> (claim: Result<Claim, StoreError>)
        ensures
            claim matches Ok(found) && (final(self)@, found@) == claim_spec(old(self)@, id, now),
            claim matches Ok(Claim::Found(secret)) ==> secret.id == id,
    {
        let ghost before = self@;
        let mut state = ClaimState::Start;
        let mut event = ClaimEvent::Begin;
        let mut row: Option<Secret> = None;
        loop
            invariant
                before == old(self)@,
                claim_in_progress(before, self@, row_view(row), id, now, state, event),
                row matches Some(secret) ==> secret.id == id,
            decreases steps_left(state),
        {
            let (next, action) = claim_step(state, event);
            match action {
                ClaimAction::ConditionalUpdate => {
                    row = self.claim_if_eligible(id, now);
                    let rows: u64 = if row.is_some() {
                        1
                    } else {
                        0
                    };
                    event = ClaimEvent::Updated { rows };
                },
                ClaimAction::Probe => {
                    event = ClaimEvent::Probed { exists: self.contains(id) };
                },
                ClaimAction::Delete => {
                    self.delete(id);
                    event = ClaimEvent::Deleted;
                },
                ClaimAction::Finish(verdict) => {
                    return claim_outcome(verdict, row);
                },
            }
            state = next;
        }
    }

    /// Deletes every row that is claimed or has expired at time `now`, and
    /// returns how many rows it deleted.
    pub fn sweep_expired(&mut self, now: i64) -> (count: usize)
        ensures
            final(self)@ == sweep_spec(old(self)@, now),
            old(self)@.dom().finite(),
            final(self)@.dom().finite(),
            count == old(self)@.dom().len() - final(self)@.dom().len(),
    {
        proof {
            use_type_invariant(&*self);
            lemma_model_len(self.rows@);
        }
        let mut rows = Vec::new();
        std::mem::swap(&mut rows, &mut self.rows);
        let ghost before = rows@;
        let total: usize = rows.len();
        let mut count: usize = 0;
        let mut i: usize = 0;
        while i < rows.len()
            invariant
                distinct(rows@),
                i <= rows@.len(),
                sweep_spec(model(rows@), now) == sweep_spec(model(before), now),
                forall|k: int| 0 <= k < i ==> eligible((#[trigger] rows@[k])@, now),
                count + rows@.len() == total,
            decreases rows@.len() - i,
        {
            if rows[i].claimed || now >= rows[i].expires_at {
                proof {
                    lemma_model_at(rows@, i as int);
                    lemma_remove(rows@, i as int);
                    assert(sweep_spec(model(rows@.remove(i as int)), now) =~= sweep_spec(
                        model(rows@),
                        now,
                    ));
                }
                rows.remove(i);
                count += 1;
            } else {
                i += 1;
            }
        }
        proof {
            assert forall|id: u128| model(rows@).dom().contains(id) implies eligible(
                #[trigger] model(rows@)[id],
                now,
            ) by {
                assert(holds(rows@, id));
                let p = position(rows@, id);
                assert(eligible(rows@[p]@, now));
            }
            assert(sweep_spec(model(rows@), now) =~= model(rows@));
            lemma_model_len(rows@);
        }
        self.rows = rows;
        count
    }
}

} // verus!
