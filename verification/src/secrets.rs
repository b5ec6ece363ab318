//! API-key storage.

use vstd::prelude::*;

use crate::error::{Error, ErrorView};

verus! {

/// Storage backend for provider API keys.
///
/// Provider configurations reference keys by provider id. Apps should choose their own ids, such
/// as `my-app/openrouter`, and pass the same id to
/// [`crate::provider::ProviderConfig::openrouter_with_keyring`].
pub trait SecretStore {
    /// Store or replace an API key for a provider id.
    fn set_api_key(&self, provider_id: &str, api_key: &str) -> Result<(), Error>;

    /// Load an API key for a provider id.
    fn get_api_key(&self, provider_id: &str) -> Result<Option<String>, Error>;

    /// Delete an API key for a provider id.
    fn delete_api_key(&self, provider_id: &str) -> Result<(), Error>;
}

/// What a credential store answered.
#[derive(Debug, PartialEq, Eq)]
pub enum StoreAnswer {
    /// The credential.
    Password(String),
    /// There is no credential.
    NoEntry,
    /// The store failed, with this message.
    Failed(String),
}

/// The API key that a store's answer stands for: a missing credential is no error.
pub fn loaded_key(answer: StoreAnswer) -> (r: Result<Option<String>, Error>)
    ensures
        match answer {
            StoreAnswer::Password(key) => r == Ok::<Option<String>, Error>(Some(key)),
            StoreAnswer::NoEntry => r == Ok::<Option<String>, Error>(None),
            StoreAnswer::Failed(message) => r matches Err(e) && e@ == ErrorView::Keyring(message@),
        },
{
    match answer {
        StoreAnswer::Password(key) => Ok(Some(key)),
        StoreAnswer::NoEntry => Ok(None),
        StoreAnswer::Failed(message) => Err(Error::Keyring(message)),
    }
}

/// Whether a credential is gone, from a store's answer to its deletion, with the failure's message
/// where it failed: a missing credential is as good as a deleted one.
pub fn deleted_key(answer: StoreAnswer) -> (r: Result<(), Error>)
    ensures
        match answer {
            StoreAnswer::Failed(message) => r matches Err(e) && e@ == ErrorView::Keyring(message@),
            _ => r is Ok,
        },
{
    match answer {
        StoreAnswer::Failed(message) => Err(Error::Keyring(message)),
        _ => Ok(()),
    }
}

} // verus!
