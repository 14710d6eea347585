//! The two operations of the service: create a secret, and retrieve it once.

use crate::app_state::AppState;
use crate::crypto::{
    open_spec, random_bytes, seal_spec, Cipher, CryptoError, NONCE_LEN, TAG_LEN,
};
use crate::error::{AppError, ValidationError};
use crate::ident::{format_uuid, id_text, parse_id, random_uuid, uuid_parse};
use crate::store::{
    claim_spec, create_spec, fresh_row, Claim, ClaimView, Secret, SecretView, StoreError,
};
use vstd::prelude::*;
use vstd::string::StringExecFns;
use vstd::utf8::{decode_utf8, encode_utf8, valid_utf8};

verus! {

/// Fewest bytes a secret value may have.
pub const MIN_VALUE_LEN: usize = 1;

/// Most bytes a secret value may have.
pub const MAX_VALUE_LEN: usize = 10000;

/// How long a secret lives, in microseconds: one hour.
pub const TTL_MICROS: i64 = 3_600_000_000;

/// The latest moment the clock can report, in microseconds since the Unix
/// epoch: the last microsecond of the year 262142.
pub const MAX_CLOCK_MICROS: i64 = 8_210_266_876_799_999_999;

/// The body of a create request.
pub struct CreateSecretRequest {
    pub value: String,
}

/// The body of the answer to a create request.
pub struct CreateSecretResponse {
    /// Where the secret can be retrieved, once.
    pub link: String,
    /// When the secret expires, in microseconds since the Unix epoch.
    pub expires_at: i64,
}

/// The mathematical value of a `CreateSecretResponse`.
pub struct CreateSecretResponseView {
    pub link: Seq<char>,
    pub expires_at: i64,
}

impl View for CreateSecretResponse {
    type V = CreateSecretResponseView;

    open spec fn view(&self) -> CreateSecretResponseView {
        CreateSecretResponseView { link: self.link@, expires_at: self.expires_at }
    }
}

/// The body of the answer to a successful retrieval.
pub struct SecretResponse {
    pub value: String,
}

impl View for SecretResponse {
    type V = Seq<char>;

    open spec fn view(&self) -> Seq<char> {
        self.value@
    }
}

/// Whether a value of this many bytes is accepted.
pub open spec fn validate_spec(value: Seq<char>) -> Result<(), ValidationError> {
    if encode_utf8(value).len() < MIN_VALUE_LEN {
        Err(ValidationError::ValueEmpty)
    } else if encode_utf8(value).len() > MAX_VALUE_LEN {
        Err(ValidationError::ValueTooLong)
    } else {
        Ok(())
    }
}

/// When a secret created at `now` expires, if that moment can be written.
pub open spec fn expiry_spec(now: i64) -> Option<i64> {
    if now + TTL_MICROS <= i64::MAX {
        Some((now + TTL_MICROS) as i64)
    } else {
        None
    }
}

/// The link under which the secret `id` is retrieved.
pub open spec fn link_spec(id: u128) -> Seq<char> {
    "/secret/"@ + id_text(id)
}

/// The row to store for a create request, or the error the request ends in
/// before anything is stored.
pub open spec fn prepare_spec(
    key: Seq<u8>,
    value: Seq<char>,
    id: u128,
    nonce: Seq<u8>,
    now: i64,
) -> Result<SecretView, AppError> {
    match validate_spec(value) {
        Err(reason) => Err(AppError::BadRequest(reason)),
        Ok(()) => match (expiry_spec(now), seal_spec(key, nonce, encode_utf8(value))) {
            (Some(expires_at), Ok(ciphertext)) => Ok(fresh_row(id, ciphertext, nonce, expires_at)),
            _ => Err(AppError::InternalServerError),
        },
    }
}

/// The answer to a create request whose row the store was asked to keep.
pub open spec fn created_spec(id: u128, expires_at: i64, persisted: Result<(), StoreError>) -> Result<
    CreateSecretResponseView,
    AppError,
> {
    match persisted {
        Ok(()) => Ok(CreateSecretResponseView { link: link_spec(id), expires_at }),
        Err(_) => Err(AppError::InternalServerError),
    }
}

/// The store after a create request, and the answer to it. Either the row
/// is stored and the link handed out, or nothing is stored.
pub open spec fn create_secret_spec(
    store: Map<u128, SecretView>,
    key: Seq<u8>,
    value: Seq<char>,
    id: u128,
    nonce: Seq<u8>,
    now: i64,
) -> (Map<u128, SecretView>, Result<CreateSecretResponseView, AppError>) {
    match prepare_spec(key, value, id, nonce, now) {
        Err(e) => (store, Err(e)),
        Ok(row) => (
            create_spec(store, row).0,
            created_spec(row.id, row.expires_at, create_spec(store, row).1),
        ),
    }
}

/// The answer to a retrieval whose decryption ended in `opened`.
pub open spec fn secret_response_spec(opened: Result<Seq<u8>, CryptoError>) -> Result<
    Seq<char>,
    AppError,
> {
    match opened {
        Ok(bytes) => if valid_utf8(bytes) {
            Ok(decode_utf8(bytes))
        } else {
            Err(AppError::InternalServerError)
        },
        Err(_) => Err(AppError::InternalServerError),
    }
}

/// The answer to a retrieval whose claim ended in `claim`. A secret that
/// is unknown, claimed or expired gives one and the same answer.
pub open spec fn disclose_spec(key: Seq<u8>, claim: Result<ClaimView, StoreError>) -> Result<
    Seq<char>,
    AppError,
> {
    match claim {
        Err(_) => Err(AppError::InternalServerError),
        Ok(ClaimView::NotFound) => Err(AppError::Expired),
        Ok(ClaimView::Ineligible) => Err(AppError::Expired),
        Ok(ClaimView::Found(secret)) => secret_response_spec(
            open_spec(key, secret.nonce, secret.ciphertext),
        ),
    }
}

/// The store after a retrieval at time `now`, and the answer to it.
pub open spec fn retrieve_secret_spec(
    store: Map<u128, SecretView>,
    key: Seq<u8>,
    id: Option<u128>,
    now: i64,
) -> (Map<u128, SecretView>, Result<Seq<char>, AppError>) {
    match id {
        None => (store, Err(AppError::NotFound)),
        Some(id) => (claim_spec(store, id, now).0, disclose_spec(key, Ok(claim_spec(store, id, now).1))),
    }
}

/// A moment the clock can report: at or after the Unix epoch and no later
/// than `MAX_CLOCK_MICROS`.
pub open spec fn clock_reading(now: i64) -> bool {
    0 <= now <= MAX_CLOCK_MICROS
}

/// The stored row opens, under `key`, to the bytes of `value`.
pub open spec fn opens_to(key: Seq<u8>, row: SecretView, value: Seq<char>) -> bool {
    open_spec(key, row.nonce, row.ciphertext) == Ok::<Seq<u8>, CryptoError>(encode_utf8(value))
}

/// What preparing a create request may end in, whatever identifier, nonce
/// and time are drawn for it.
pub open spec fn prepare_secret_outcome(
    key: Seq<u8>,
    value: Seq<char>,
    prepared: Result<SecretView, AppError>,
) -> bool {
    exists|id: u128, nonce: Seq<u8>, now: i64|
        {
            &&& nonce.len() == NONCE_LEN
            &&& clock_reading(now)
            &&& #[trigger] prepare_spec(key, value, id, nonce, now) == prepared
        }
}

/// What a create request may end in, whatever identifier, nonce and time
/// are drawn for it. Where it succeeds, the link names the identifier
/// under which a row is stored that opens to the value and whose ciphertext
/// is one tag longer than the value. A valid request fails only where the
/// identifier drawn is already in use.
pub open spec fn create_secret_outcome(
    before: Map<u128, SecretView>,
    key: Seq<u8>,
    value: Seq<char>,
    after: Map<u128, SecretView>,
    answer: Result<CreateSecretResponseView, AppError>,
) -> bool {
    exists|id: u128, nonce: Seq<u8>, now: i64|
        {
            &&& nonce.len() == NONCE_LEN
            &&& clock_reading(now)
            &&& #[trigger] create_secret_spec(before, key, value, id, nonce, now) == (after, answer)
            &&& answer matches Ok(response) ==> {
                &&& uuid_parse(response.link.skip(8)) == Some(id)
                &&& after.dom().contains(id)
                &&& opens_to(key, after[id], value)
                &&& after[id].ciphertext.len() == encode_utf8(value).len() + TAG_LEN
            }
            &&& validate_spec(value) is Ok && answer is Err ==> before.dom().contains(id)
        }
}

/// What a retrieval may end in, whatever time the clock reports.
pub open spec fn retrieve_secret_outcome(
    before: Map<u128, SecretView>,
    key: Seq<u8>,
    id: Option<u128>,
    after: Map<u128, SecretView>,
    answer: Result<Seq<char>, AppError>,
) -> bool {
    exists|now: i64|
        clock_reading(now) && #[trigger] retrieve_secret_spec(before, key, id, now) == (
            after,
            answer,
        )
}

/// The mathematical value of a prepared row.
pub open spec fn prepared_view(prepared: Result<Secret, AppError>) -> Result<SecretView, AppError> {
    match prepared {
        Ok(row) => Ok(row@),
        Err(e) => Err(e),
    }
}

/// The mathematical value of the answer to a create request.
pub open spec fn created_view(answer: Result<CreateSecretResponse, AppError>) -> Result<
    CreateSecretResponseView,
    AppError,
> {
    match answer {
        Ok(response) => Ok(response@),
        Err(e) => Err(e),
    }
}

/// The mathematical value of the answer to a retrieval.
pub open spec fn retrieved_view(answer: Result<SecretResponse, AppError>) -> Result<
    Seq<char>,
    AppError,
> {
    match answer {
        Ok(response) => Ok(response@),
        Err(e) => Err(e),
    }
}

/// `String::from_utf8`. Trusted: it succeeds exactly on valid UTF-8 and
/// then gives the text that the bytes encode.
#[verifier::external_body]
fn string_from_utf8(bytes: Vec<u8>) -> (text: Option<String>)
    ensures
        text is Some <==> valid_utf8(bytes@),
        text matches Some(s) ==> s@ == decode_utf8(bytes@),
{
    String::from_utf8(bytes).ok()
}

/// `Utc::now`, in microseconds since the Unix epoch, as
/// `DateTime::timestamp_micros` gives it. Trusted: the time read is not
/// before the epoch and not after the last moment a `DateTime` can hold.
#[verifier::external_body]
fn now_micros() -> (now: i64)
    ensures
        clock_reading(now),
{
    chrono::Utc::now().timestamp_micros()
}

impl CreateSecretRequest {
    /// Checks the size of the payload: 1 to 10000 bytes of text.
    pub fn validate(&self) -> (checked: Result<(), ValidationError>)
        ensures
            checked == validate_spec(self.value@),
    {
        let len: usize = self.value.as_str().as_bytes().len();
        if len < MIN_VALUE_LEN {
            Err(ValidationError::ValueEmpty)
        } else if len > MAX_VALUE_LEN {
            Err(ValidationError::ValueTooLong)
        } else {
            Ok(())
        }
    }
}

impl CreateSecretResponse {
    /// The HTTP status a created secret is announced under.
    pub fn status_code(&self) -> (status: u16)
        ensures
            status == 201,
    {
        201
    }

    /// The value of the `Location` header: the link.
    pub fn location(&self) -> (location: &str)
        ensures
            location@ == self.link@,
    {
        self.link.as_str()
    }
}

impl SecretResponse {
    /// The HTTP status a disclosed secret is sent under.
    pub fn status_code(&self) -> (status: u16)
        ensures
            status == 200,
    {
        200
    }
}

/// When a secret created at `now` expires: one hour later.
pub fn expiry(now: i64) -> (expires_at: Option<i64>)
    ensures
        expires_at == expiry_spec(now),
{
    now.checked_add(TTL_MICROS)
}

/// The link under which the secret `id` is retrieved.
pub fn secret_link(id: u128) -> (link: String)
    ensures
        link@ == link_spec(id),
        uuid_parse(link@.skip(8)) == Some(id),
{
    let text = format_uuid(id);
    let mut link = "/secret/".to_owned();
    link.append(text.as_str());
    proof {
        reveal_strlit("/secret/");
        assert(link@.skip(8) =~= text@);
    }
    link
}

/// Validates the payload and seals it under `nonce` into the row to store
/// for `id`. On success the row opens to the payload again.
pub fn prepare_secret_with(
    cipher: &Cipher,
    request: &CreateSecretRequest,
    id: u128,
    nonce: Vec<u8>,
    now: i64,
) -> (prepared: Result<Secret, AppError>)
    ensures
        prepared_view(prepared) == prepare_spec(cipher@, request.value@, id, nonce@, now),
        prepared matches Ok(row) ==> {
            &&& opens_to(cipher@, row@, request.value@)
            &&& row.ciphertext@.len() == encode_utf8(request.value@).len() + TAG_LEN
        },
{
    match request.validate() {
        Err(reason) => Err(AppError::BadRequest(reason)),
        Ok(()) => {
            let sealed = cipher.encrypt_with_nonce(
                request.value.as_str().as_bytes(),
                nonce.as_slice(),
            );
            match (expiry(now), sealed) {
                (Some(expires_at), Ok(ciphertext)) => Ok(
                    Secret { id, ciphertext, nonce, expires_at, claimed: false },
                ),
                _ => Err(AppError::InternalServerError),
            }
        },
    }
}

/// Validates the payload and seals it, under a fresh random nonce, into the
/// row to store under a fresh random identifier, expiring one hour from now.
/// It succeeds on every valid payload.
pub fn prepare_secret(cipher: &Cipher, request: &CreateSecretRequest) -> (prepared: Result<
    Secret,
    AppError,
>)
    ensures
        prepare_secret_outcome(cipher@, request.value@, prepared_view(prepared)),
        validate_spec(request.value@) is Ok ==> prepared is Ok,
        validate_spec(request.value@) matches Err(reason) ==> prepared_view(prepared) == Err::<
            SecretView,
            AppError,
        >(AppError::BadRequest(reason)),
        prepared matches Ok(row) ==> {
            &&& opens_to(cipher@, row@, request.value@)
            &&& row.ciphertext@.len() == encode_utf8(request.value@).len() + TAG_LEN
        },
{
    let id = random_uuid();
    let nonce = random_bytes(NONCE_LEN);
    let now = now_micros();
    let prepared = prepare_secret_with(cipher, request, id, nonce, now);
    proof {
        assert(prepare_spec(cipher@, request.value@, id, nonce@, now) == prepared_view(prepared));
    }
    prepared
}

/// The answer to a create request once the store was asked to keep the row:
/// the link and the expiry, or an internal error if the store failed.
pub fn created(id: u128, expires_at: i64, persisted: Result<(), StoreError>) -> (answer: Result<
    CreateSecretResponse,
    AppError,
>)
    ensures
        created_view(answer) == created_spec(id, expires_at, persisted),
        answer matches Ok(response) ==> uuid_parse(response.link@.skip(8)) == Some(id),
{
    match persisted {
        Ok(()) => Ok(CreateSecretResponse { link: secret_link(id), expires_at }),
        Err(_) => Err(AppError::InternalServerError),
    }
}

/// Creates a secret from the request under the given identifier and nonce,
/// at time `now`. Either the row is stored and the link is returned, or
/// the store is left as it was.
pub fn create_secret_with(
    state: &mut AppState,
    request: &CreateSecretRequest,
    id: u128,
    nonce: Vec<u8>,
    now: i64,
) -> (answer: Result<CreateSecretResponse, AppError>)
    ensures
        (final(state).db@, created_view(answer)) == create_secret_spec(
            old(state).db@,
            old(state).cipher@,
            request.value@,
            id,
            nonce@,
            now,
        ),
        final(state).cipher == old(state).cipher,
        answer matches Ok(response) ==> {
            &&& uuid_parse(response.link@.skip(8)) == Some(id)
            &&& final(state).db@.dom().contains(id)
            &&& opens_to(final(state).cipher@, final(state).db@[id], request.value@)
            &&& final(state).db@[id].ciphertext.len() == encode_utf8(request.value@).len()
                + TAG_LEN
        },
        answer is Err ==> final(state).db@ == old(state).db@,
{
    match prepare_secret_with(&state.cipher, request, id, nonce, now) {
        Err(e) => Err(e),
        Ok(row) => {
            let expires_at = row.expires_at;
            let persisted = state.db.create(row.id, row.ciphertext, row.nonce, row.expires_at);
            created(id, expires_at, persisted)
        },
    }
}

/// Creates a secret from the request: draws an identifier and a nonce,
/// seals the payload, and stores it to expire one hour from now. A valid
/// request succeeds unless the identifier drawn is already in use.
pub fn create_secret(state: &mut AppState, request: &CreateSecretRequest) -> (answer: Result<
    CreateSecretResponse,
    AppError,
>)
    ensures
        create_secret_outcome(
            old(state).db@,
            old(state).cipher@,
            request.value@,
            final(state).db@,
            created_view(answer),
        ),
        final(state).cipher == old(state).cipher,
        validate_spec(request.value@) matches Err(reason) ==> created_view(answer) == Err::<
            CreateSecretResponseView,
            AppError,
        >(AppError::BadRequest(reason)),
        answer is Err ==> final(state).db@ == old(state).db@,
{
    let id = random_uuid();
    let nonce = random_bytes(NONCE_LEN);
    let now = now_micros();
    let answer = create_secret_with(state, request, id, nonce, now);
    proof {
        assert(create_secret_spec(
            old(state).db@,
            old(state).cipher@,
            request.value@,
            id,
            nonce@,
            now,
        ) == (state.db@, created_view(answer)));
    }
    answer
}

/// The answer to a retrieval once decryption has ended: the text that the
/// plaintext encodes, or an internal error.
pub fn secret_response(opened: Result<Vec<u8>, CryptoError>) -> (answer: Result<
    SecretResponse,
    AppError,
>)
    ensures
        retrieved_view(answer) == secret_response_spec(
            match opened {
                Ok(bytes) => Ok(bytes@),
                Err(e) => Err(e),
            },
        ),
{
    match opened {
        Ok(bytes) => match string_from_utf8(bytes) {
            Some(value) => Ok(SecretResponse { value }),
            None => Err(AppError::InternalServerError),
        },
        Err(_) => Err(AppError::InternalServerError),
    }
}

/// The answer to a retrieval once the claim has ended. Only a successful
/// claim is decrypted; a secret that is unknown, claimed or expired gives
/// one and the same answer; a store that failed gives an internal error.
pub fn disclose(cipher: &Cipher, claim: Result<Claim, StoreError>) -> (answer: Result<
    SecretResponse,
    AppError,
>)
    ensures
        retrieved_view(answer) == disclose_spec(
            cipher@,
            match claim {
                Ok(found) => Ok(found@),
                Err(e) => Err(e),
            },
        ),
{
    match claim {
        Err(_) => Err(AppError::InternalServerError),
        Ok(Claim::NotFound) => Err(AppError::Expired),
        Ok(Claim::Ineligible) => Err(AppError::Expired),
        Ok(Claim::Found(secret)) => secret_response(
            cipher.decrypt(secret.ciphertext.as_slice(), secret.nonce.as_slice()),
        ),
    }
}

/// Retrieves the secret `id` at time `now`: claims it in one atomic step,
/// and decrypts it only if the claim succeeded.
pub fn retrieve_by_id(state: &mut AppState, id: u128, now: i64) -> (answer: Result<
    SecretResponse,
    AppError,
>)
    ensures
        (final(state).db@, retrieved_view(answer)) == retrieve_secret_spec(
            old(state).db@,
            old(state).cipher@,
            Some(id),
            now,
        ),
        final(state).cipher == old(state).cipher,
{
    let claim = state.db.try_claim_and_fetch(id, now);
    disclose(&state.cipher, claim)
}

/// Retrieves the secret named by `id`, in its external form, at time `now`.
/// A malformed identifier is answered as not found, with no detail.
pub fn retrieve_secret_at(state: &mut AppState, id: &str, now: i64) -> (answer: Result<
    SecretResponse,
    AppError,
>)
    ensures
        (final(state).db@, retrieved_view(answer)) == retrieve_secret_spec(
            old(state).db@,
            old(state).cipher@,
            uuid_parse(id@),
            now,
        ),
        final(state).cipher == old(state).cipher,
{
    match parse_id(id) {
        None => Err(AppError::NotFound),
        Some(id) => retrieve_by_id(state, id, now),
    }
}

/// Retrieves the secret named by `id`, in its external form, now.
pub fn retrieve_secret(state: &mut AppState, id: &str) -> (answer: Result<SecretResponse, AppError>)
    ensures
        retrieve_secret_outcome(
            old(state).db@,
            old(state).cipher@,
            uuid_parse(id@),
            final(state).db@,
            retrieved_view(answer),
        ),
        final(state).cipher == old(state).cipher,
        uuid_parse(id@) is None ==> retrieved_view(answer) == Err::<Seq<char>, AppError>(
            AppError::NotFound,
        ),
        uuid_parse(id@) matches Some(parsed) ==> (!old(state).db@.dom().contains(parsed) || old(
            state,
        ).db@[parsed].claimed) ==> retrieved_view(answer) == Err::<Seq<char>, AppError>(
            AppError::Expired,
        ),
{
    let now = now_micros();
    let answer = retrieve_secret_at(state, id, now);
    proof {
        assert(retrieve_secret_spec(old(state).db@, old(state).cipher@, uuid_parse(id@), now) == (
            state.db@,
            retrieved_view(answer),
        ));
    }
    answer
}

} // verus!
