//! `key set` / `key check`: both act on the keychain entry of `<id[#profile]>`.
//! Prompting for the key and talking to the keychain are the caller's part.

use vstd::prelude::*;

use crate::cli::{key_target_spec, parse_key_target, CliError, CliFault};
use crate::cred_ref::{first_index, lemma_first_exists, Backend, CredRef, CredRefView};
use crate::secret::keychain::account_spec;

verus! {

/// The keychain reference a `key set/check` target denotes.
pub open spec fn keychain_cred_spec(target: Seq<char>) -> Result<CredRefView, CliFault> {
    match key_target_spec(target) {
        Ok((id, profile)) => Ok(CredRefView { backend: Backend::Keychain, locator: id, profile }),
        Err(e) => Err(e),
    }
}

/// The keychain reference for a target `<id[#profile]>`.
pub fn keychain_cred(target: &str) -> (r: Result<CredRef, CliError>)
    ensures
        match r {
            Ok(c) => keychain_cred_spec(target@) == Ok::<CredRefView, CliFault>(c@),
            Err(e) => keychain_cred_spec(target@) == Err::<CredRefView, CliFault>(e@),
        },
{
    match parse_key_target(target) {
        Ok((id, profile)) => Ok(CredRef { backend: Backend::Keychain, locator: id, profile }),
        Err(e) => Err(e),
    }
}

/// A target that `key set` accepts is exactly the keychain account the key is
/// stored under, so `key set x` and `key check x` meet the same entry and the
/// account layout is `<provider>[#profile]`.
pub proof fn law_target_is_account(target: Seq<char>)
    requires
        keychain_cred_spec(target) is Ok,
    ensures
        ({
            let c = keychain_cred_spec(target)->Ok_0;
            account_spec(c.locator, c.profile) == target
        }),
{
    reveal_strlit("#");
    if target.contains('#') {
        lemma_first_exists(target, '#');
        let i = first_index(target, '#');
        assert(target =~= target.take(i) + "#"@ + target.skip(i + 1));
    }
}

} // verus!
