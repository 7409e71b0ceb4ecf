//! The `env` backend: the key is read from the environment variable the locator
//! names. Read-only: a key is never written into a persistent variable. Reading
//! the variable is the caller's part.

use vstd::prelude::*;

use crate::cred_ref::CredRef;
use crate::secret::{SecretError, SecretFault};

verus! {

/// The environment-variable backend.
#[derive(Debug, Clone, Copy)]
pub struct EnvStore;

impl EnvStore {
    /// The key, given the value of the variable `r.locator` (`None` when unset).
    pub fn get(&self, r: &CredRef, value: Option<String>) -> (res: Result<String, SecretError>)
        ensures
            match value {
                Some(v) => res is Ok && res->Ok_0@ == v@,
                None => res is Err && res->Err_0@ == SecretFault::EnvNotSet(r.locator@),
            },
    {
        match value {
            Some(v) => Ok(v),
            None => Err(SecretError::EnvNotSet(r.locator.clone())),
        }
    }

    /// Writing is not supported.
    pub fn set(&self, _r: &CredRef, _value: String) -> (res: Result<(), SecretError>)
        ensures
            res is Err && res->Err_0@ == SecretFault::EnvWriteUnsupported,
    {
        Err(SecretError::EnvWriteUnsupported)
    }
}

} // verus!
