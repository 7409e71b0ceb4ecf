//! `code <id> [--profile p] [--copy]`: the LangChain block of a provider.
//!
//! The caller resolves the reference with [`crate::cli::credential_for`], fetches
//! the key from its backend, and hands it here.

use vstd::prelude::*;

use crate::cli::{find_provider, CliError, CliFault};
use crate::model::ProviderView;
use crate::render::{langchain, langchain_spec};

verus! {

/// The LangChain block of provider `id` with `key`.
pub open spec fn code_spec(cat: Map<Seq<char>, ProviderView>, id: Seq<char>, key: Seq<char>) -> Result<
    Seq<char>,
    CliFault,
> {
    if !cat.contains_key(id) {
        Err(CliFault::ProviderNotFound(id))
    } else {
        langchain_spec(id, cat[id], key)
    }
}

/// Renders the LangChain block of provider `id` with the fetched key.
pub fn run(cat: &crate::model::ProvidersFile, id: &str, key: &str) -> (r: Result<String, CliError>)
    ensures
        match r {
            Ok(s) => code_spec(cat@, id@, key@) == Ok::<Seq<char>, CliFault>(s@),
            Err(e) => code_spec(cat@, id@, key@) == Err::<Seq<char>, CliFault>(e@),
        },
{
    let p = match find_provider(cat, id) {
        Ok(p) => p,
        Err(e) => return Err(e),
    };
    langchain(id, p, key)
}

} // verus!
