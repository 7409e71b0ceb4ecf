//! The models.dev layer: normalising the upstream listing, cache freshness, and
//! what a refresh does to the cache.
//!
//! From models.dev this version takes the display name only: its `api` field
//! gives international endpoints for providers whose snapshot entries point
//! at domestic ones, so letting it through would break those entries. Reading
//! and writing the cache file and fetching over HTTP are the caller's part.

use vstd::prelude::*;

use crate::catalog::{merge_layer, provider_or_empty};
use crate::model::{dup_opt, opt_view, Models, Provider, ProviderView, ProvidersFile};
use crate::strmap::{Dup, StrMap};

verus! {

/// How long a cached listing counts as fresh: 24 hours, in seconds.
pub const TTL_SECS: u64 = 24 * 60 * 60;

/// One upstream provider: only the field this version uses.
#[derive(Debug)]
pub struct Upstream {
    pub name: Option<String>,
}

impl View for Upstream {
    type V = Option<Seq<char>>;

    open spec fn view(&self) -> Option<Seq<char>> {
        opt_view(self.name)
    }
}

impl Dup for Upstream {
    fn dup(&self) -> (r: Self) {
        Upstream { name: dup_opt(&self.name) }
    }
}

/// A provider that carries a display name and nothing else.
pub open spec fn display_only(name: Option<Seq<char>>) -> ProviderView {
    ProviderView {
        display_name: name,
        base_url: None,
        key_ref: None,
        env_prefix: None,
        naming_note: None,
        models: Map::empty(),
    }
}

/// The upstream listing as a catalog layer: each provider keeps its name only.
pub fn normalize(upstream: StrMap<Upstream>) -> (r: ProvidersFile)
    ensures
        r@ == Map::new(
            |k: Seq<char>| upstream@.contains_key(k),
            |k: Seq<char>| display_only(upstream@[k]),
        ),
{
    let mut out: StrMap<Provider> = StrMap::new();
    let n = upstream.len();
    let ghost ks = upstream.keys();
    let ghost target = Map::new(
        |k: Seq<char>| upstream@.contains_key(k),
        |k: Seq<char>| display_only(upstream@[k]),
    );
    let mut i: usize = 0;
    assert(out@ =~= target.restrict(ks.take(0).to_set()));
    while i < n
        invariant
            n == ks.len(),
            ks == upstream.keys(),
            upstream@.dom() == ks.to_set(),
            i <= n,
            target == Map::new(
                |k: Seq<char>| upstream@.contains_key(k),
                |k: Seq<char>| display_only(upstream@[k]),
            ),
            out@ == target.restrict(ks.take(i as int).to_set()),
        decreases n - i,
    {
        let id = upstream.key_at(i);
        let up = upstream.value_at(i);
        let p = Provider {
            display_name: dup_opt(&up.name),
            base_url: None,
            key_ref: None,
            env_prefix: None,
            naming_note: None,
            models: Models::default(),
        };
        out.insert(id.clone(), p);
        proof {
            assert(ks.take(i + 1).to_set() =~= ks.take(i as int).to_set().insert(ks[i as int]))
                by {
                assert(ks.take(i + 1) =~= ks.take(i as int).push(ks[i as int]));
                ks.take(i as int).lemma_push_to_set_commute(ks[i as int]);
            }
            assert(out@ =~= target.restrict(ks.take(i + 1).to_set()));
        }
        i = i + 1;
    }
    proof {
        assert(ks.take(n as int) =~= ks);
        assert(out@ =~= target);
    }
    ProvidersFile { providers: out }
}

/// The cached layer for merging; a missing or unreadable cache is an empty layer.
pub fn load_layer(cached: Option<ProvidersFile>) -> (r: ProvidersFile)
    ensures
        match cached {
            Some(p) => r@ == p@,
            None => r@ == Map::<Seq<char>, ProviderView>::empty(),
        },
{
    match cached {
        Some(p) => p,
        None => ProvidersFile::empty(),
    }
}

/// How fresh the models.dev cache is.
#[derive(Debug, Clone, Copy, PartialEq, Eq, Structural)]
pub enum CacheStatus {
    /// No cache: the catalog falls back to the snapshot.
    Missing,
    /// A cache within its time to live.
    Fresh { age_secs: u64 },
    /// A cache past its time to live (still used; a refresh is advised).
    Stale { age_secs: u64 },
}

/// The status of a cache fetched at `fetched_at` (if any), seen at `now`.
pub open spec fn status_spec(fetched_at: Option<u64>, now: u64) -> CacheStatus {
    match fetched_at {
        None => CacheStatus::Missing,
        Some(t) => {
            let age: u64 = if now >= t {
                (now - t) as u64
            } else {
                0
            };
            if age <= TTL_SECS {
                CacheStatus::Fresh { age_secs: age }
            } else {
                CacheStatus::Stale { age_secs: age }
            }
        },
    }
}

/// The cache status: missing, or fresh/stale by its age (clock skew counts as age 0).
pub fn status(fetched_at: Option<u64>, now: u64) -> (r: CacheStatus)
    ensures
        r == status_spec(fetched_at, now),
{
    match fetched_at {
        None => CacheStatus::Missing,
        Some(t) => {
            let age = now.saturating_sub(t);
            if age <= TTL_SECS {
                CacheStatus::Fresh { age_secs: age }
            } else {
                CacheStatus::Stale { age_secs: age }
            }
        },
    }
}

/// The cache file's content: when it was fetched and the normalised layer.
#[derive(Debug)]
pub struct Cache {
    pub fetched_at: u64,
    pub providers: ProvidersFile,
}

/// What a refresh writes: a fetched layer becomes the new cache, stamped `now`;
/// a failed fetch is handed back as it is, and nothing is to be written.
pub fn persist_fetched(fetched: Result<ProvidersFile, String>, now: u64) -> (r: Result<
    Cache,
    String,
>)
    ensures
        match fetched {
            Ok(p) => r is Ok && r->Ok_0.fetched_at == now && r->Ok_0.providers@ == p@,
            Err(e) => r is Err && r->Err_0@ == e@,
        },
{
    match fetched {
        Ok(p) => Ok(Cache { fetched_at: now, providers: p }),
        Err(e) => Err(e),
    }
}

/// Merging a models.dev layer over a catalog changes display names only: the
/// base URL, key reference, variable prefix, naming note and models of every
/// provider stay as the layers below give them.
pub proof fn law_modelsdev_changes_names_only(
    below: Map<Seq<char>, ProviderView>,
    upstream: Map<Seq<char>, Option<Seq<char>>>,
    id: Seq<char>,
)
    requires
        below.contains_key(id),
    ensures
        ({
            let layer = Map::new(
                |k: Seq<char>| upstream.contains_key(k),
                |k: Seq<char>| display_only(upstream[k]),
            );
            let after = merge_layer(below, layer)[id];
            &&& after.base_url == below[id].base_url
            &&& after.key_ref == below[id].key_ref
            &&& after.env_prefix == below[id].env_prefix
            &&& after.naming_note == below[id].naming_note
            &&& after.models == below[id].models
        }),
{
    let layer = Map::new(
        |k: Seq<char>| upstream.contains_key(k),
        |k: Seq<char>| display_only(upstream[k]),
    );
    if layer.contains_key(id) {
        assert(provider_or_empty(below, id) == below[id]);
        assert(below[id].models.union_prefer_right(Map::empty()) =~= below[id].models);
    }
}

} // verus!
