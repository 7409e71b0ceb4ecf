//! The provider catalog's data: one layer of `[providers.<id>]` tables.
//!
//! Every field of a layer may be absent: a layer (the user's overrides in
//! particular) may set a single field, and the layers are merged field by field.
//! Model roles are kept in one map, so roles other than `chat` and `embedding`
//! are carried along unchanged.

use vstd::prelude::*;

use crate::strmap::{Dup, StrMap};

verus! {

/// The characters of an optional string.
pub open spec fn opt_view(o: Option<String>) -> Option<Seq<char>> {
    match o {
        Some(s) => Some(s@),
        None => None,
    }
}

/// A copy of an optional string.
pub fn dup_opt(o: &Option<String>) -> (r: Option<String>)
    ensures
        opt_view(r) == opt_view(*o),
{
    match o {
        Some(s) => Some(s.clone()),
        None => None,
    }
}

/// Model role → model id (`chat`, `embedding`, and any role not known here).
#[derive(Debug)]
pub struct Models {
    pub roles: StrMap<String>,
}

impl View for Models {
    type V = Map<Seq<char>, Seq<char>>;

    open spec fn view(&self) -> Map<Seq<char>, Seq<char>> {
        self.roles@
    }
}

/// The model under role `role`, if any.
pub open spec fn role_of(m: Map<Seq<char>, Seq<char>>, role: Seq<char>) -> Option<Seq<char>> {
    if m.contains_key(role) {
        Some(m[role])
    } else {
        None
    }
}

/// The borrowed text of an optional string.
pub open spec fn opt_str_view(o: Option<&str>) -> Option<Seq<char>> {
    match o {
        Some(s) => Some(s@),
        None => None,
    }
}

impl Models {
    fn role(&self, role: &str) -> (r: Option<&str>)
        ensures
            opt_str_view(r) == role_of(self@, role@),
    {
        match self.roles.get(role) {
            Some(s) => Some(s.as_str()),
            None => None,
        }
    }

    /// The model id of the `chat` role, if set.
    pub fn chat(&self) -> (r: Option<&str>)
        ensures
            opt_str_view(r) == role_of(self@, "chat"@),
    {
        self.role("chat")
    }

    /// The model id of the `embedding` role, if set (DeepSeek, for one, has none).
    pub fn embedding(&self) -> (r: Option<&str>)
        ensures
            opt_str_view(r) == role_of(self@, "embedding"@),
    {
        self.role("embedding")
    }

    /// Whether no role is set.
    pub fn is_empty(&self) -> (b: bool)
        ensures
            b == (self@ == Map::<Seq<char>, Seq<char>>::empty()),
    {
        self.roles.is_empty()
    }
}

impl Default for Models {
    fn default() -> (r: Self)
        ensures
            r@ == Map::<Seq<char>, Seq<char>>::empty(),
    {
        Models { roles: StrMap::new() }
    }
}

impl Dup for Models {
    fn dup(&self) -> (r: Self) {
        let mut roles = StrMap::new();
        roles.extend_from(&self.roles);
        assert(roles@ =~= self.roles@);
        Models { roles }
    }
}

/// One provider as one layer sees it.
#[derive(Debug)]
pub struct Provider {
    /// Human-readable name, such as "OpenRouter".
    pub display_name: Option<String>,
    /// OpenAI-compatible API base URL.
    pub base_url: Option<String>,
    /// Credential reference `<backend>:<locator>[#profile]`; never the key itself.
    pub key_ref: Option<String>,
    /// Prefix of the `.env` variable names, such as "OPENROUTER".
    pub env_prefix: Option<String>,
    /// A hint on how the provider names its models.
    pub naming_note: Option<String>,
    /// The model roles.
    pub models: Models,
}

/// What a provider holds, as values.
pub struct ProviderView {
    pub display_name: Option<Seq<char>>,
    pub base_url: Option<Seq<char>>,
    pub key_ref: Option<Seq<char>>,
    pub env_prefix: Option<Seq<char>>,
    pub naming_note: Option<Seq<char>>,
    pub models: Map<Seq<char>, Seq<char>>,
}

/// A provider with no field and no role set.
pub open spec fn empty_provider() -> ProviderView {
    ProviderView {
        display_name: None,
        base_url: None,
        key_ref: None,
        env_prefix: None,
        naming_note: None,
        models: Map::empty(),
    }
}

impl View for Provider {
    type V = ProviderView;

    open spec fn view(&self) -> ProviderView {
        ProviderView {
            display_name: opt_view(self.display_name),
            base_url: opt_view(self.base_url),
            key_ref: opt_view(self.key_ref),
            env_prefix: opt_view(self.env_prefix),
            naming_note: opt_view(self.naming_note),
            models: self.models@,
        }
    }
}

impl Provider {
    /// A provider with no field and no role set.
    pub fn empty() -> (r: Provider)
        ensures
            r@ == empty_provider(),
    {
        Provider {
            display_name: None,
            base_url: None,
            key_ref: None,
            env_prefix: None,
            naming_note: None,
            models: Models::default(),
        }
    }
}

impl Default for Provider {
    fn default() -> (r: Self)
        ensures
            r@ == empty_provider(),
    {
        Provider::empty()
    }
}

impl Dup for Provider {
    fn dup(&self) -> (r: Self) {
        Provider {
            display_name: dup_opt(&self.display_name),
            base_url: dup_opt(&self.base_url),
            key_ref: dup_opt(&self.key_ref),
            env_prefix: dup_opt(&self.env_prefix),
            naming_note: dup_opt(&self.naming_note),
            models: self.models.dup(),
        }
    }
}

/// One layer of the catalog: provider id → provider, ordered by id.
#[derive(Debug)]
pub struct ProvidersFile {
    pub providers: StrMap<Provider>,
}

impl View for ProvidersFile {
    type V = Map<Seq<char>, ProviderView>;

    open spec fn view(&self) -> Map<Seq<char>, ProviderView> {
        self.providers@
    }
}

impl ProvidersFile {
    /// A layer with no provider.
    pub fn empty() -> (r: ProvidersFile)
        ensures
            r@ == Map::<Seq<char>, ProviderView>::empty(),
    {
        ProvidersFile { providers: StrMap::new() }
    }
}

impl Default for ProvidersFile {
    fn default() -> (r: Self)
        ensures
            r@ == Map::<Seq<char>, ProviderView>::empty(),
    {
        ProvidersFile::empty()
    }
}

impl Clone for Models {
    fn clone(&self) -> (r: Self)
        ensures
            r@ == self@,
    {
        self.dup()
    }
}

impl Clone for Provider {
    fn clone(&self) -> (r: Self)
        ensures
            r@ == self@,
    {
        self.dup()
    }
}

impl Clone for ProvidersFile {
    fn clone(&self) -> (r: Self)
        ensures
            r@ == self@,
    {
        ProvidersFile { providers: self.providers.clone() }
    }
}

} // verus!
