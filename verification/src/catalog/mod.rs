//! The three-layer catalog merge.
//!
//! Precedence, low to high: built-in snapshot < models.dev cache < user
//! overrides. The merge is field by field: a field an upper layer sets replaces
//! the lower one, the other fields of the lower layer stay; model roles merge
//! role by role. What the user writes always wins.
//!
//! The models.dev layer only enriches providers the snapshot or the overrides
//! already know; it never adds entries of its own to the catalog.

pub mod modelsdev;
pub mod snapshot;

use vstd::prelude::*;

use crate::model::{empty_provider, Provider, ProviderView, ProvidersFile};
use crate::strmap::{Dup, StrMap};

verus! {

/// `hi` where it is set, else `lo`.
pub open spec fn pick(hi: Option<Seq<char>>, lo: Option<Seq<char>>) -> Option<Seq<char>> {
    if hi is Some {
        hi
    } else {
        lo
    }
}

/// `hi` merged over `base`: each field `hi` sets wins, each role `hi` sets wins.
pub open spec fn merge_provider(base: ProviderView, hi: ProviderView) -> ProviderView {
    ProviderView {
        display_name: pick(hi.display_name, base.display_name),
        base_url: pick(hi.base_url, base.base_url),
        key_ref: pick(hi.key_ref, base.key_ref),
        env_prefix: pick(hi.env_prefix, base.env_prefix),
        naming_note: pick(hi.naming_note, base.naming_note),
        models: base.models.union_prefer_right(hi.models),
    }
}

/// The provider `id` of a layer, or an empty provider when the layer lacks it.
pub open spec fn provider_or_empty(m: Map<Seq<char>, ProviderView>, id: Seq<char>) -> ProviderView {
    if m.contains_key(id) {
        m[id]
    } else {
        empty_provider()
    }
}

/// `layer` merged over the catalog `acc`.
pub open spec fn merge_layer(
    acc: Map<Seq<char>, ProviderView>,
    layer: Map<Seq<char>, ProviderView>,
) -> Map<Seq<char>, ProviderView> {
    Map::new(
        |k: Seq<char>| acc.contains_key(k) || layer.contains_key(k),
        |k: Seq<char>|
            if layer.contains_key(k) {
                merge_provider(provider_or_empty(acc, k), layer[k])
            } else {
                acc[k]
            },
    )
}

/// The layers merged in order, each over the ones before it.
pub open spec fn merge_layers(layers: Seq<Map<Seq<char>, ProviderView>>) -> Map<
    Seq<char>,
    ProviderView,
>
    decreases layers.len(),
{
    if layers.len() == 0 {
        Map::empty()
    } else {
        merge_layer(merge_layers(layers.drop_last()), layers.last())
    }
}

/// The views of a list of layers.
pub open spec fn layer_views(layers: Seq<ProvidersFile>) -> Seq<Map<Seq<char>, ProviderView>> {
    layers.map_values(|l: ProvidersFile| l@)
}

/// Merges the fields and roles `hi` sets into `base`.
fn merge_into(base: &mut Provider, hi: Provider)
    ensures
        final(base)@ == merge_provider(old(base)@, hi@),
{
    if hi.display_name.is_some() {
        base.display_name = hi.display_name;
    }
    if hi.base_url.is_some() {
        base.base_url = hi.base_url;
    }
    if hi.key_ref.is_some() {
        base.key_ref = hi.key_ref;
    }
    if hi.env_prefix.is_some() {
        base.env_prefix = hi.env_prefix;
    }
    if hi.naming_note.is_some() {
        base.naming_note = hi.naming_note;
    }
    base.models.roles.extend_from(&hi.models.roles);
}

/// Merges one layer over `out`.
fn merge_layer_into(out: &mut StrMap<Provider>, layer: &StrMap<Provider>)
    ensures
        final(out)@ == merge_layer(old(out)@, layer@),
{
    let n = layer.len();
    let ghost ks = layer.keys();
    let ghost acc = old(out)@;
    let mut i: usize = 0;
    assert(merge_layer(acc, layer@.restrict(ks.take(0).to_set())) =~= acc);
    while i < n
        invariant
            n == ks.len(),
            ks == layer.keys(),
            layer@.dom() == ks.to_set(),
            ks.no_duplicates(),
            i <= n,
            out@ == merge_layer(acc, layer@.restrict(ks.take(i as int).to_set())),
        decreases n - i,
    {
        let id = layer.key_at(i);
        let hi = layer.value_at(i);
        let ghost k = id@;
        let ghost done = ks.take(i as int).to_set();
        assert(!done.contains(k)) by {
            if done.contains(k) {
                let j = choose|j: int| 0 <= j < i && ks.take(i as int)[j] == k;
                assert(ks[j] == ks[i as int]);
            }
        }
        let ghost prev = out@;
        let mut cur = match out.take(id.as_str()) {
            Some(p) => p,
            None => Provider::empty(),
        };
        assert(cur@ == provider_or_empty(acc, k));
        merge_into(&mut cur, hi.dup());
        out.insert(id.clone(), cur);
        proof {
            assert(ks.take(i + 1).to_set() =~= done.insert(k)) by {
                assert(ks.take(i + 1) =~= ks.take(i as int).push(k));
                ks.take(i as int).lemma_push_to_set_commute(k);
            }
            assert(out@ =~= merge_layer(acc, layer@.restrict(ks.take(i + 1).to_set())));
        }
        i = i + 1;
    }
    proof {
        assert(ks.take(n as int) =~= ks);
        assert(layer@.restrict(ks.to_set()) =~= layer@);
    }
}

/// Merges the layers field by field, from lowest to highest precedence.
pub fn merge(layers: Vec<ProvidersFile>) -> (r: ProvidersFile)
    ensures
        r@ == merge_layers(layer_views(layers@)),
{
    let mut out = ProvidersFile::empty();
    let n = layers.len();
    let ghost views = layer_views(layers@);
    let mut i: usize = 0;
    assert(views.take(0) =~= Seq::<Map<Seq<char>, ProviderView>>::empty());
    while i < n
        invariant
            n == layers.len(),
            views == layer_views(layers@),
            i <= n,
            out@ == merge_layers(views.take(i as int)),
        decreases n - i,
    {
        merge_layer_into(&mut out.providers, &layers[i].providers);
        assert(views.take(i + 1).drop_last() =~= views.take(i as int));
        i = i + 1;
    }
    assert(views.take(n as int) =~= views);
    out
}

/// The models.dev layer cut down to the providers the snapshot or the overrides know.
fn known_only(
    layer: &StrMap<Provider>,
    snapshot: &StrMap<Provider>,
    overrides: &StrMap<Provider>,
) -> (r: StrMap<Provider>)
    ensures
        r@ == layer@.restrict(snapshot@.dom().union(overrides@.dom())),
{
    let mut out: StrMap<Provider> = StrMap::new();
    let n = layer.len();
    let ghost ks = layer.keys();
    let ghost known = snapshot@.dom().union(overrides@.dom());
    let mut i: usize = 0;
    assert(out@ =~= layer@.restrict(known).restrict(ks.take(0).to_set()));
    while i < n
        invariant
            n == ks.len(),
            ks == layer.keys(),
            layer@.dom() == ks.to_set(),
            i <= n,
            known == snapshot@.dom().union(overrides@.dom()),
            out@ == layer@.restrict(known).restrict(ks.take(i as int).to_set()),
        decreases n - i,
    {
        let id = layer.key_at(i);
        let ghost k = id@;
        if snapshot.contains_key(id.as_str()) || overrides.contains_key(id.as_str()) {
            let p = layer.value_at(i);
            out.insert(id.clone(), p.dup());
        }
        proof {
            assert(ks.take(i + 1).to_set() =~= ks.take(i as int).to_set().insert(k)) by {
                assert(ks.take(i + 1) =~= ks.take(i as int).push(k));
                ks.take(i as int).lemma_push_to_set_commute(k);
            }
            assert(out@ =~= layer@.restrict(known).restrict(ks.take(i + 1).to_set()));
        }
        i = i + 1;
    }
    proof {
        assert(ks.take(n as int) =~= ks);
        assert(out@ =~= layer@.restrict(known));
    }
    out
}

/// The final catalog from its three layers: snapshot < models.dev (enriching
/// known providers only) < overrides.
///
/// Reading the layers is the caller's part: a missing or corrupt models.dev
/// cache, or a missing overrides file, is handed in as an empty layer.
pub fn load_merged(snapshot: ProvidersFile, modelsdev: ProvidersFile, overrides: ProvidersFile) -> (r:
    ProvidersFile)
    ensures
        r@ == merge_layers(
            seq![
                snapshot@,
                modelsdev@.restrict(snapshot@.dom().union(overrides@.dom())),
                overrides@,
            ],
        ),
{
    let enrich = known_only(&modelsdev.providers, &snapshot.providers, &overrides.providers);
    let mut layers: Vec<ProvidersFile> = Vec::new();
    layers.push(snapshot);
    layers.push(ProvidersFile { providers: enrich });
    layers.push(overrides);
    let r = merge(layers);
    proof {
        assert(layer_views(layers@) =~= seq![
            layers@[0]@,
            layers@[1]@,
            layers@[2]@,
        ]);
    }
    r
}

// ---------------------------------------------------------------------------
// Laws of the merge
// ---------------------------------------------------------------------------

/// A provider is in the merged catalog exactly when some layer has it.
pub proof fn law_merged_ids_are_union(layers: Seq<Map<Seq<char>, ProviderView>>, id: Seq<char>)
    ensures
        merge_layers(layers).contains_key(id) <==> exists|i: int|
            0 <= i < layers.len() && #[trigger] layers[i].contains_key(id),
    decreases layers.len(),
{
    if layers.len() > 0 {
        let lower = layers.drop_last();
        law_merged_ids_are_union(lower, id);
        if merge_layers(lower).contains_key(id) {
            let i = choose|i: int| 0 <= i < lower.len() && #[trigger] lower[i].contains_key(id);
            assert(layers[i] == lower[i]);
        }
        if exists|i: int| 0 <= i < layers.len() && #[trigger] layers[i].contains_key(id) {
            let i = choose|i: int| 0 <= i < layers.len() && #[trigger] layers[i].contains_key(id);
            if i < layers.len() - 1 {
                assert(lower[i] == layers[i]);
            }
        }
    }
}

/// What the topmost layer sets for a provider wins, field by field and role by role.
pub proof fn law_top_layer_wins(layers: Seq<Map<Seq<char>, ProviderView>>, id: Seq<char>)
    requires
        layers.len() > 0,
        layers.last().contains_key(id),
    ensures
        ({
            let top = layers.last()[id];
            let m = merge_layers(layers)[id];
            &&& merge_layers(layers).contains_key(id)
            &&& top.display_name is Some ==> m.display_name == top.display_name
            &&& top.base_url is Some ==> m.base_url == top.base_url
            &&& top.key_ref is Some ==> m.key_ref == top.key_ref
            &&& top.env_prefix is Some ==> m.env_prefix == top.env_prefix
            &&& top.naming_note is Some ==> m.naming_note == top.naming_note
            &&& forall|role: Seq<char>| #[trigger]
                top.models.contains_key(role) ==> m.models.contains_key(role) && m.models[role]
                    == top.models[role]
        }),
{
}

/// A layer that leaves a field or a role of a provider unset keeps what the
/// layers below it give.
pub proof fn law_unset_field_is_kept(
    below: Seq<Map<Seq<char>, ProviderView>>,
    top: Map<Seq<char>, ProviderView>,
    id: Seq<char>,
)
    requires
        merge_layers(below).contains_key(id),
    ensures
        ({
            let t = provider_or_empty(top, id);
            let before = merge_layers(below)[id];
            let after = merge_layers(below.push(top))[id];
            &&& t.display_name is None ==> after.display_name == before.display_name
            &&& t.base_url is None ==> after.base_url == before.base_url
            &&& t.key_ref is None ==> after.key_ref == before.key_ref
            &&& t.env_prefix is None ==> after.env_prefix == before.env_prefix
            &&& t.naming_note is None ==> after.naming_note == before.naming_note
            &&& forall|role: Seq<char>| #[trigger]
                before.models.contains_key(role) && !t.models.contains_key(role)
                    ==> after.models.contains_key(role) && after.models[role]
                    == before.models[role]
        }),
{
    assert(below.push(top).drop_last() =~= below);
}

/// A layer with no provider neither adds nor removes anything.
pub proof fn law_empty_layer_is_neutral(below: Seq<Map<Seq<char>, ProviderView>>)
    ensures
        merge_layers(below.push(Map::empty())) == merge_layers(below),
{
    assert(below.push(Map::empty()).drop_last() =~= below);
    assert(merge_layers(below.push(Map::empty())) =~= merge_layers(below));
}

/// Merging a single layer gives that layer back.
pub proof fn law_single_layer_is_itself(layer: Map<Seq<char>, ProviderView>)
    ensures
        merge_layers(seq![layer]) == layer,
{
    let ls = seq![layer];
    assert(ls.drop_last() =~= Seq::<Map<Seq<char>, ProviderView>>::empty());
    assert(merge_layers(ls.drop_last()) == Map::<Seq<char>, ProviderView>::empty());
    assert(ls.last() == layer);
    assert forall|k: Seq<char>| #[trigger] layer.contains_key(k) implies merge_layers(ls)[k]
        == layer[k] by {
        assert(layer[k].models =~= Map::<Seq<char>, Seq<char>>::empty().union_prefer_right(
            layer[k].models,
        ));
        assert(merge_layers(ls)[k] == merge_provider(empty_provider(), layer[k]));
    }
    assert(merge_layers(ls) =~= layer);
}

/// The merged catalog lists exactly the providers of the snapshot and of the
/// overrides: models.dev never brings in a provider of its own.
pub proof fn law_catalog_ids(
    snapshot: Map<Seq<char>, ProviderView>,
    modelsdev: Map<Seq<char>, ProviderView>,
    overrides: Map<Seq<char>, ProviderView>,
)
    ensures
        merge_layers(
            seq![
                snapshot,
                modelsdev.restrict(snapshot.dom().union(overrides.dom())),
                overrides,
            ],
        ).dom() == snapshot.dom().union(overrides.dom()),
{
    let ls = seq![snapshot, modelsdev.restrict(snapshot.dom().union(overrides.dom())), overrides];
    assert forall|id: Seq<char>| #[trigger] merge_layers(ls).contains_key(id) <==> snapshot.dom().union(
        overrides.dom(),
    ).contains(id) by {
        law_merged_ids_are_union(ls, id);
        if merge_layers(ls).contains_key(id) {
            let i = choose|i: int| 0 <= i < ls.len() && #[trigger] ls[i].contains_key(id);
            assert(i == 0 || i == 1 || i == 2);
        }
        if snapshot.contains_key(id) {
            assert(ls[0].contains_key(id));
        }
        if overrides.contains_key(id) {
            assert(ls[2].contains_key(id));
        }
    }
    assert(merge_layers(ls).dom() =~= snapshot.dom().union(overrides.dom()));
}

/// With no models.dev cache the catalog is the snapshot merged with the
/// overrides: a missing cache loses nothing and breaks nothing.
pub proof fn law_offline_catalog(
    snapshot: Map<Seq<char>, ProviderView>,
    overrides: Map<Seq<char>, ProviderView>,
)
    ensures
        merge_layers(seq![snapshot, Map::empty(), overrides]) == merge_layers(
            seq![snapshot, overrides],
        ),
{
    let three = seq![snapshot, Map::<Seq<char>, ProviderView>::empty(), overrides];
    let two = seq![snapshot, overrides];
    law_empty_layer_is_neutral(seq![snapshot]);
    assert(seq![snapshot].push(Map::<Seq<char>, ProviderView>::empty()) =~= three.drop_last());
    assert(seq![snapshot] =~= two.drop_last());
    assert(three.last() == two.last());
}

/// With neither a models.dev cache nor overrides, the catalog is the snapshot.
pub proof fn law_snapshot_alone(snapshot: Map<Seq<char>, ProviderView>)
    ensures
        merge_layers(seq![snapshot, Map::empty(), Map::empty()]) == snapshot,
{
    let e = Map::<Seq<char>, ProviderView>::empty();
    law_single_layer_is_itself(snapshot);
    law_empty_layer_is_neutral(seq![snapshot]);
    law_empty_layer_is_neutral(seq![snapshot, e]);
    assert(seq![snapshot].push(e) =~= seq![snapshot, e]);
    assert(seq![snapshot, e].push(e) =~= seq![snapshot, e, e]);
}

} // verus!
