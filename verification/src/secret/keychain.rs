//! The keychain backend: one entry per key, service `dev.mars.qiao`, account
//! `<provider>[#profile]`. The keyring calls are the caller's part; the account
//! layout and what each outcome means are decided here.

use vstd::prelude::*;

use crate::cred_ref::CredRef;
use crate::secret::{KeychainOp, SecretError, SecretFault};

verus! {

/// The keychain service every entry lives under.
pub const SERVICE: &'static str = "dev.mars.qiao";

/// The keychain backend.
#[derive(Debug, Clone, Copy)]
pub struct KeychainStore;

/// The account of a reference: the locator, then `#profile` if there is one.
pub open spec fn account_spec(locator: Seq<char>, profile: Option<Seq<char>>) -> Seq<char> {
    match profile {
        Some(p) => locator + "#"@ + p,
        None => locator,
    }
}

/// A failed keychain operation on the account of a reference.
pub open spec fn keychain_failure(
    op: KeychainOp,
    locator: Seq<char>,
    profile: Option<Seq<char>>,
    cause: Seq<char>,
) -> SecretFault {
    SecretFault::KeychainFailure { op, account: account_spec(locator, profile), cause }
}

/// The keychain account for a reference: `<locator>[#profile]`.
pub fn account(r: &CredRef) -> (a: String)
    ensures
        a@ == account_spec(r@.locator, r@.profile),
{
    match &r.profile {
        Some(profile) => {
            let mut a = r.locator.clone();
            a.append("#");
            a.append(profile.as_str());
            a
        },
        None => r.locator.clone(),
    }
}

/// How a keyring read ended, as plain values.
#[derive(Debug, PartialEq, Eq)]
pub enum KeyringRead {
    Found(String),
    NoEntry,
    /// Any other keyring error; carries its message.
    Failed(String),
}

impl KeychainStore {
    /// The key, given how reading the entry ended.
    pub fn get(&self, r: &CredRef, read: KeyringRead) -> (res: Result<String, SecretError>)
        ensures
            match read {
                KeyringRead::Found(pw) => res is Ok && res->Ok_0@ == pw@,
                KeyringRead::NoEntry => res is Err && res->Err_0@ == SecretFault::KeychainNoEntry(
                    account_spec(r@.locator, r@.profile),
                ),
                KeyringRead::Failed(m) => res is Err && res->Err_0@ == keychain_failure(KeychainOp::Read, r@.locator, r@.profile, m@),
            },
    {
        match read {
            KeyringRead::Found(pw) => Ok(pw),
            KeyringRead::NoEntry => Err(SecretError::KeychainNoEntry(account(r))),
            KeyringRead::Failed(m) => Err(
                SecretError::KeychainFailure { op: KeychainOp::Read, account: account(r), cause: m },
            ),
        }
    }

    /// Whether the entry exists, given how reading it ended (the key is dropped).
    pub fn key_exists(&self, r: &CredRef, read: KeyringRead) -> (res: Result<bool, SecretError>)
        ensures
            match read {
                KeyringRead::Found(_) => res == Ok::<bool, SecretError>(true),
                KeyringRead::NoEntry => res == Ok::<bool, SecretError>(false),
                KeyringRead::Failed(m) => res is Err && res->Err_0@ == keychain_failure(KeychainOp::Query, r@.locator, r@.profile, m@),
            },
    {
        match read {
            KeyringRead::Found(_) => Ok(true),
            KeyringRead::NoEntry => Ok(false),
            KeyringRead::Failed(m) => Err(
                SecretError::KeychainFailure { op: KeychainOp::Query, account: account(r), cause: m },
            ),
        }
    }

    /// The outcome of writing the entry, given the keyring's error message if it failed.
    pub fn set(&self, r: &CredRef, written: Result<(), String>) -> (res: Result<(), SecretError>)
        ensures
            match written {
                Ok(()) => res is Ok,
                Err(m) => res is Err && res->Err_0@ == keychain_failure(KeychainOp::Write, r@.locator, r@.profile, m@),
            },
    {
        match written {
            Ok(()) => Ok(()),
            Err(m) => Err(
                SecretError::KeychainFailure { op: KeychainOp::Write, account: account(r), cause: m },
            ),
        }
    }

    /// The error for an entry that could not be opened.
    pub fn open_failed(&self, r: &CredRef, cause: String) -> (res: SecretError)
        ensures
            res@ == keychain_failure(KeychainOp::Open, r@.locator, r@.profile, cause@),
    {
        SecretError::KeychainFailure { op: KeychainOp::Open, account: account(r), cause }
    }
}

} // verus!
