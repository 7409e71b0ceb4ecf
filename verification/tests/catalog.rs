use llmkeys::catalog::modelsdev::{
    load_layer, normalize, persist_fetched, status, CacheStatus, Upstream, TTL_SECS,
};
use llmkeys::catalog::{load_merged, merge, snapshot};
use llmkeys::model::{Models, Provider, ProvidersFile};
use llmkeys::strmap::StrMap;

fn prov(fields: Provider) -> Provider {
    fields
}

fn file(pairs: Vec<(&str, Provider)>) -> ProvidersFile {
    let mut f = ProvidersFile::default();
    for (id, p) in pairs {
        f.providers.insert(id.to_string(), p);
    }
    f
}

fn models(pairs: &[(&str, &str)]) -> Models {
    let mut m = Models::default();
    for (k, v) in pairs {
        m.roles.insert(k.to_string(), v.to_string());
    }
    m
}

#[test]
fn field_level_precedence_across_three_layers() {
    let snapshot = file(vec![(
        "x",
        prov(Provider {
            display_name: Some("snap".into()),
            base_url: Some("https://snap/v1".into()),
            key_ref: Some("keychain:x".into()),
            models: models(&[("chat", "c-snap")]),
            ..Default::default()
        }),
    )]);
    let modelsdev = file(vec![(
        "x",
        prov(Provider {
            display_name: Some("from-models-dev".into()),
            ..Default::default()
        }),
    )]);
    let overrides = file(vec![(
        "x",
        prov(Provider {
            base_url: Some("https://user/v1".into()),
            models: models(&[("embedding", "e-user")]),
            ..Default::default()
        }),
    )]);

    let merged = merge(vec![snapshot, modelsdev, overrides]);
    let x = merged.providers.get("x").unwrap();
    assert_eq!(x.base_url.as_deref(), Some("https://user/v1"));
    assert_eq!(x.display_name.as_deref(), Some("from-models-dev"));
    assert_eq!(x.key_ref.as_deref(), Some("keychain:x"));
    assert_eq!(x.models.chat(), Some("c-snap"));
    assert_eq!(x.models.embedding(), Some("e-user"));
}

#[test]
fn override_replaces_single_field_only() {
    let snapshot = file(vec![(
        "openrouter",
        prov(Provider {
            display_name: Some("OpenRouter".into()),
            base_url: Some("https://openrouter.ai/api/v1".into()),
            key_ref: Some("keychain:openrouter".into()),
            env_prefix: Some("OPENROUTER".into()),
            ..Default::default()
        }),
    )]);
    let overrides = file(vec![(
        "openrouter",
        prov(Provider {
            base_url: Some("https://my-proxy.local/v1".into()),
            ..Default::default()
        }),
    )]);

    let merged = merge(vec![snapshot, ProvidersFile::default(), overrides]);
    let p = merged.providers.get("openrouter").unwrap();
    assert_eq!(p.base_url.as_deref(), Some("https://my-proxy.local/v1"));
    assert_eq!(p.key_ref.as_deref(), Some("keychain:openrouter"));
    assert_eq!(p.env_prefix.as_deref(), Some("OPENROUTER"));
    assert_eq!(p.display_name.as_deref(), Some("OpenRouter"));
}

#[test]
fn snapshot_only_yields_full_offline_catalog() {
    let snapshot = snapshot::load();
    let merged = merge(vec![
        snapshot.clone(),
        ProvidersFile::default(),
        ProvidersFile::default(),
    ]);
    assert_eq!(merged.providers.len(), snapshot.providers.len());
    assert_eq!(
        merged.providers.get("deepseek").unwrap().base_url.as_deref(),
        Some("https://api.deepseek.com/v1")
    );
}

#[test]
fn empty_layer_does_not_introduce_or_erase() {
    let snapshot = file(vec![(
        "x",
        prov(Provider {
            base_url: Some("https://snap/v1".into()),
            ..Default::default()
        }),
    )]);
    let merged = merge(vec![snapshot, ProvidersFile::default()]);
    assert_eq!(merged.providers.len(), 1);
    assert_eq!(
        merged.providers.get("x").unwrap().base_url.as_deref(),
        Some("https://snap/v1")
    );
}

#[test]
fn snapshot_loads_four_providers() {
    let f = snapshot::load();
    assert_eq!(f.providers.len(), 4);
    for id in ["openrouter", "siliconflow", "aliyun_bailian", "deepseek"] {
        assert!(f.providers.contains_key(id));
    }
}

#[test]
fn snapshot_openrouter_fields_and_models() {
    let f = snapshot::load();
    let p = f.providers.get("openrouter").unwrap();
    assert_eq!(p.base_url.as_deref(), Some("https://openrouter.ai/api/v1"));
    assert_eq!(p.key_ref.as_deref(), Some("keychain:openrouter"));
    assert_eq!(p.env_prefix.as_deref(), Some("OPENROUTER"));
    assert_eq!(p.models.chat(), Some("openai/gpt-5.5"));
    assert_eq!(p.models.embedding(), Some("baai/bge-m3"));
    let d = f.providers.get("deepseek").unwrap();
    assert_eq!(d.models.chat(), Some("deepseek-v4-pro"));
    assert_eq!(d.models.embedding(), None);
}

#[test]
fn merged_ids_come_out_sorted() {
    let f = snapshot::load();
    let ids: Vec<String> = (0..f.providers.len())
        .map(|i| f.providers.key_at(i).clone())
        .collect();
    assert_eq!(ids, vec!["aliyun_bailian", "deepseek", "openrouter", "siliconflow"]);
}

#[test]
fn single_layer_merges_to_itself() {
    let layer = file(vec![
        ("b", Provider { base_url: Some("https://b/v1".into()), ..Default::default() }),
        ("a", Provider { models: models(&[("rerank", "r-1")]), ..Default::default() }),
    ]);
    let merged = merge(vec![layer]);
    assert_eq!(merged.providers.len(), 2);
    assert_eq!(merged.providers.get("b").unwrap().base_url.as_deref(), Some("https://b/v1"));
    assert_eq!(
        merged.providers.get("a").unwrap().models.roles.get("rerank").map(String::as_str),
        Some("r-1")
    );
}

#[test]
fn load_merged_keeps_models_dev_to_known_providers() {
    let snapshot = file(vec![(
        "x",
        Provider { base_url: Some("https://snap/v1".into()), ..Default::default() },
    )]);
    let modelsdev = file(vec![
        ("x", Provider { display_name: Some("X".into()), ..Default::default() }),
        ("stray", Provider { display_name: Some("Stray".into()), ..Default::default() }),
        ("mine", Provider { display_name: Some("Mine".into()), ..Default::default() }),
    ]);
    let overrides = file(vec![(
        "mine",
        Provider { base_url: Some("https://mine/v1".into()), ..Default::default() },
    )]);
    let merged = load_merged(snapshot, modelsdev, overrides);
    assert_eq!(merged.providers.len(), 2);
    assert!(!merged.providers.contains_key("stray"));
    assert_eq!(merged.providers.get("x").unwrap().display_name.as_deref(), Some("X"));
    assert_eq!(merged.providers.get("mine").unwrap().display_name.as_deref(), Some("Mine"));
    assert_eq!(merged.providers.get("mine").unwrap().base_url.as_deref(), Some("https://mine/v1"));
}

#[test]
fn normalize_takes_display_name_only() {
    let mut upstream = StrMap::new();
    upstream.insert("openrouter".to_string(), Upstream { name: Some("OpenRouter".into()) });
    upstream.insert("deepseek".to_string(), Upstream { name: Some("DeepSeek".into()) });
    let layer = normalize(upstream);
    assert_eq!(
        layer.providers.get("openrouter").unwrap().display_name.as_deref(),
        Some("OpenRouter")
    );
    assert_eq!(layer.providers.get("deepseek").unwrap().base_url, None);
}

#[test]
fn missing_cache_is_an_empty_layer() {
    assert!(load_layer(None).providers.is_empty());
    let kept = load_layer(Some(file(vec![("x", Provider::default())])));
    assert_eq!(kept.providers.len(), 1);
}

#[test]
fn cache_status_by_age() {
    assert_eq!(status(None, 1000), CacheStatus::Missing);
    assert_eq!(status(Some(100), 100 + TTL_SECS), CacheStatus::Fresh { age_secs: TTL_SECS });
    assert_eq!(
        status(Some(100), 101 + TTL_SECS),
        CacheStatus::Stale { age_secs: TTL_SECS + 1 }
    );
    // A clock that went backwards counts as age zero.
    assert_eq!(status(Some(500), 10), CacheStatus::Fresh { age_secs: 0 });
    assert_eq!(TTL_SECS, 86_400);
}

#[test]
fn failed_refresh_writes_nothing() {
    let failed = persist_fetched(Err("network down".to_string()), 999);
    assert_eq!(failed.unwrap_err(), "network down");
    let fetched = file(vec![("marker", Provider { display_name: Some("NEW".into()), ..Default::default() })]);
    let cache = persist_fetched(Ok(fetched), 123).unwrap();
    assert_eq!(cache.fetched_at, 123);
    assert_eq!(
        cache.providers.providers.get("marker").unwrap().display_name.as_deref(),
        Some("NEW")
    );
}

#[test]
fn unknown_model_role_is_preserved_through_merge() {
    let lower = file(vec![("x", Provider { models: models(&[("chat", "m-chat"), ("rerank", "m-rerank")]), ..Default::default() })]);
    let upper = file(vec![("x", Provider { models: models(&[("chat", "m-chat-2")]), ..Default::default() })]);
    let merged = merge(vec![lower, upper]);
    let m = &merged.providers.get("x").unwrap().models;
    assert_eq!(m.chat(), Some("m-chat-2"));
    assert_eq!(m.roles.get("rerank").map(String::as_str), Some("m-rerank"));
    assert!(!m.is_empty());
    assert!(Models::default().is_empty());
}

#[test]
fn modelsdev_layer_changes_display_names_only() {
    let mut upstream = StrMap::new();
    upstream.insert("deepseek".to_string(), Upstream { name: Some("DeepSeek (upstream)".into()) });
    let merged = load_merged(snapshot::load(), normalize(upstream), ProvidersFile::default());
    let d = merged.providers.get("deepseek").unwrap();
    assert_eq!(d.display_name.as_deref(), Some("DeepSeek (upstream)"));
    assert_eq!(d.base_url.as_deref(), Some("https://api.deepseek.com/v1"));
    assert_eq!(d.key_ref.as_deref(), Some("keychain:deepseek"));
    assert_eq!(d.models.chat(), Some("deepseek-v4-pro"));
}
