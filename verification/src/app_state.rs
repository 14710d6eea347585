//! What every request handler works on: the store and the key context.

use crate::crypto::Cipher;
use crate::store::SecretStore;
use vstd::prelude::*;

verus! {

/// The secret store and the process-wide cipher.
pub struct AppState {
    pub db: SecretStore,
    pub cipher: Cipher,
}

impl AppState {
    /// Puts a store and a cipher together.
    pub fn new(db: SecretStore, cipher: Cipher) -> (state: AppState)
        ensures
            state.db == db,
            state.cipher == cipher,
    {
        AppState { db, cipher }
    }
}

} // verus!
