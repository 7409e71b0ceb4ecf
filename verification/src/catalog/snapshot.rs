//! The built-in snapshot: the lowest layer, always present, so the catalog works
//! offline and on first run.

use vstd::prelude::*;

use crate::model::{Models, Provider, ProviderView, ProvidersFile};
use crate::strmap::StrMap;

verus! {

/// A snapshot entry: the four connection fields and the given roles.
pub open spec fn entry_view(
    display_name: Seq<char>,
    base_url: Seq<char>,
    key_ref: Seq<char>,
    env_prefix: Seq<char>,
    models: Map<Seq<char>, Seq<char>>,
) -> ProviderView {
    ProviderView {
        display_name: Some(display_name),
        base_url: Some(base_url),
        key_ref: Some(key_ref),
        env_prefix: Some(env_prefix),
        naming_note: None,
        models: models,
    }
}

/// The snapshot's content.
pub open spec fn snapshot_catalog() -> Map<Seq<char>, ProviderView> {
    Map::empty().insert(
        "openrouter"@,
        entry_view(
            "OpenRouter"@,
            "https://openrouter.ai/api/v1"@,
            "keychain:openrouter"@,
            "OPENROUTER"@,
            Map::empty().insert("chat"@, "openai/gpt-5.5"@).insert("embedding"@, "baai/bge-m3"@),
        ),
    ).insert(
        "siliconflow"@,
        entry_view(
            "SiliconFlow"@,
            "https://api.siliconflow.cn/v1"@,
            "keychain:siliconflow"@,
            "SILICONFLOW"@,
            Map::empty(),
        ),
    ).insert(
        "aliyun_bailian"@,
        entry_view(
            "Aliyun Bailian"@,
            "https://dashscope.aliyuncs.com/compatible-mode/v1"@,
            "keychain:aliyun_bailian"@,
            "ALIYUN_BAILIAN"@,
            Map::empty(),
        ),
    ).insert(
        "deepseek"@,
        entry_view(
            "DeepSeek"@,
            "https://api.deepseek.com/v1"@,
            "keychain:deepseek"@,
            "DEEPSEEK"@,
            Map::empty().insert("chat"@, "deepseek-v4-pro"@),
        ),
    )
}

fn entry(display_name: &str, base_url: &str, key_ref: &str, env_prefix: &str, roles: StrMap<
    String,
>) -> (p: Provider)
    ensures
        p@ == entry_view(display_name@, base_url@, key_ref@, env_prefix@, roles@),
{
    Provider {
        display_name: Some(display_name.to_owned()),
        base_url: Some(base_url.to_owned()),
        key_ref: Some(key_ref.to_owned()),
        env_prefix: Some(env_prefix.to_owned()),
        naming_note: None,
        models: Models { roles },
    }
}

/// The built-in snapshot layer.
pub fn load() -> (r: ProvidersFile)
    ensures
        r@ == snapshot_catalog(),
{
    let mut out: StrMap<Provider> = StrMap::new();

    let mut roles: StrMap<String> = StrMap::new();
    roles.insert("chat".to_owned(), "openai/gpt-5.5".to_owned());
    roles.insert("embedding".to_owned(), "baai/bge-m3".to_owned());
    out.insert(
        "openrouter".to_owned(),
        entry(
            "OpenRouter",
            "https://openrouter.ai/api/v1",
            "keychain:openrouter",
            "OPENROUTER",
            roles,
        ),
    );

    out.insert(
        "siliconflow".to_owned(),
        entry(
            "SiliconFlow",
            "https://api.siliconflow.cn/v1",
            "keychain:siliconflow",
            "SILICONFLOW",
            StrMap::new(),
        ),
    );

    out.insert(
        "aliyun_bailian".to_owned(),
        entry(
            "Aliyun Bailian",
            "https://dashscope.aliyuncs.com/compatible-mode/v1",
            "keychain:aliyun_bailian",
            "ALIYUN_BAILIAN",
            StrMap::new(),
        ),
    );

    let mut roles: StrMap<String> = StrMap::new();
    roles.insert("chat".to_owned(), "deepseek-v4-pro".to_owned());
    out.insert(
        "deepseek".to_owned(),
        entry("DeepSeek", "https://api.deepseek.com/v1", "keychain:deepseek", "DEEPSEEK", roles),
    );

    ProvidersFile { providers: out }
}

} // verus!
