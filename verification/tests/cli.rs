use llmkeys::catalog::modelsdev::CacheStatus;
use llmkeys::catalog::{load_merged, snapshot};
use llmkeys::cli::key::keychain_cred;
use llmkeys::cli::{
    code, credential_for, data_source_line, humanize, list, parse_key_target, show, CliError,
};
use llmkeys::cred_ref::{Backend, CredRefError};
use llmkeys::model::{Provider, ProvidersFile};
use llmkeys::secret::keychain::account;

fn catalog_with_env_key() -> ProvidersFile {
    let mut overrides = ProvidersFile::default();
    overrides.providers.insert(
        "openrouter".to_string(),
        Provider { key_ref: Some("env:LLMKEYS_E2E_KEY".into()), ..Default::default() },
    );
    load_merged(snapshot::load(), ProvidersFile::default(), overrides)
}

#[test]
fn env_command_renders_dotenv_from_env_backend() {
    let cat = catalog_with_env_key();
    let cred = credential_for(&cat, "openrouter", None).unwrap();
    assert_eq!(cred.backend, Backend::Env);
    assert_eq!(cred.locator, "LLMKEYS_E2E_KEY");
    let out = llmkeys::cli::env::run(&cat, "openrouter", "placeholder-not-real").unwrap();
    assert!(out.contains("OPENROUTER_BASE_URL=https://openrouter.ai/api/v1"));
    assert!(out.contains("OPENROUTER_MODEL=openai/gpt-5.5"));
    assert!(out.contains("OPENROUTER_API_KEY=placeholder-not-real"));
}

#[test]
fn code_command_renders_langchain_from_env_backend() {
    let cat = catalog_with_env_key();
    let out = code::run(&cat, "openrouter", "placeholder-not-real").unwrap();
    assert!(out.contains("from langchain_openai import ChatOpenAI"));
    assert!(out.contains("base_url=\"https://openrouter.ai/api/v1\""));
    assert!(out.contains("model=\"openai/gpt-5.5\""));
    assert!(out.contains("api_key=\"placeholder-not-real\""));
}

#[test]
fn dotenv_exact_text() {
    let cat = load_merged(snapshot::load(), ProvidersFile::default(), ProvidersFile::default());
    assert_eq!(
        llmkeys::cli::env::run(&cat, "deepseek", "k").unwrap(),
        "DEEPSEEK_BASE_URL=https://api.deepseek.com/v1\nDEEPSEEK_API_KEY=k\nDEEPSEEK_MODEL=deepseek-v4-pro\n"
    );
}

#[test]
fn code_requires_a_chat_model() {
    let cat = load_merged(snapshot::load(), ProvidersFile::default(), ProvidersFile::default());
    let err = code::run(&cat, "siliconflow", "k").unwrap_err();
    assert_eq!(
        err,
        CliError::MissingField { id: "siliconflow".into(), field: "models.chat".into() }
    );
}

#[test]
fn unknown_provider_errors_readably() {
    let cat = catalog_with_env_key();
    let err = llmkeys::cli::env::run(&cat, "does-not-exist", "k").unwrap_err();
    assert_eq!(err, CliError::ProviderNotFound("does-not-exist".into()));
    assert!(err.to_string().contains("未找到 provider"));
    assert!(credential_for(&cat, "does-not-exist", None).is_err());
}

#[test]
fn profile_flag_overrides_reference_profile() {
    let cat = load_merged(snapshot::load(), ProvidersFile::default(), ProvidersFile::default());
    let c = credential_for(&cat, "openrouter", Some("work")).unwrap();
    assert_eq!(c.backend, Backend::Keychain);
    assert_eq!(c.locator, "openrouter");
    assert_eq!(c.profile.as_deref(), Some("work"));
    assert_eq!(account(&c), "openrouter#work");
}

#[test]
fn invalid_key_ref_names_the_provider() {
    let mut overrides = ProvidersFile::default();
    overrides.providers.insert(
        "x".to_string(),
        Provider { key_ref: Some("vault:thing".into()), ..Default::default() },
    );
    let cat = load_merged(ProvidersFile::default(), ProvidersFile::default(), overrides);
    let err = credential_for(&cat, "x", None).unwrap_err();
    assert_eq!(
        err,
        CliError::InvalidKeyRef { id: "x".into(), cause: CredRefError::UnknownBackend("vault".into()) }
    );
    assert_eq!(
        err.to_string(),
        "invalid key_ref for provider `x`: unknown key backend `vault`: only keychain | bw | env are supported"
    );
}

#[test]
fn key_targets() {
    assert_eq!(parse_key_target("openrouter").unwrap(), ("openrouter".to_string(), None));
    assert_eq!(
        parse_key_target("openrouter#work").unwrap(),
        ("openrouter".to_string(), Some("work".to_string()))
    );
    assert_eq!(parse_key_target(""), Err(CliError::EmptyTarget));
    assert_eq!(parse_key_target("#work"), Err(CliError::TargetMissingId));
    assert_eq!(parse_key_target("openrouter#"), Err(CliError::EmptyTargetProfile));
    let c = keychain_cred("openrouter#work#2").unwrap();
    assert_eq!(c.backend, Backend::Keychain);
    assert_eq!(account(&c), "openrouter#work#2");
}

#[test]
fn humanize_durations() {
    assert_eq!(humanize(0), "0 seconds");
    assert_eq!(humanize(59), "59 seconds");
    assert_eq!(humanize(60), "1 minutes");
    assert_eq!(humanize(3599), "59 minutes");
    assert_eq!(humanize(7200), "2 hours");
    assert_eq!(humanize(86_400 * 3 + 5), "3 days");
}

#[test]
fn data_source_lines() {
    assert!(data_source_line(CacheStatus::Missing).contains("no models.dev cache"));
    assert_eq!(
        data_source_line(CacheStatus::Fresh { age_secs: 120 }),
        "Source: built-in snapshot + models.dev cache (2 minutes ago) + user overrides"
    );
    assert!(data_source_line(CacheStatus::Stale { age_secs: 200_000 }).contains("2 days ago, stale"));
}

#[test]
fn list_works_offline_from_snapshot() {
    let cat = load_merged(snapshot::load(), ProvidersFile::default(), ProvidersFile::default());
    let out = list::run(&cat, "Source: test");
    for id in ["openrouter", "deepseek", "siliconflow", "aliyun_bailian"] {
        assert!(out.contains(id), "list 缺 provider: {id}");
    }
    assert!(out.contains("https://api.siliconflow.cn/v1"));
    assert!(out.contains("https://api.deepseek.com/v1"));
    assert!(out.starts_with("Source: test\n"));
    assert!(out.contains("\n  deepseek        DeepSeek  https://api.deepseek.com/v1\n"));
}

#[test]
fn list_of_empty_catalog() {
    assert_eq!(list::run(&ProvidersFile::default(), "S"), "S\n(无 provider)\n");
}

#[test]
fn show_displays_key_ref_not_plaintext() {
    let cat = catalog_with_env_key();
    let out = show::run(&cat, "openrouter").unwrap();
    assert!(out.contains("env:LLMKEYS_E2E_KEY"), "应显示 key_ref 引用");
    assert!(out.starts_with("openrouter\n  display_name    : OpenRouter\n"));
    assert!(out.contains("  key_ref         : env:LLMKEYS_E2E_KEY   (引用,不显示明文)\n"));
    assert!(out.contains("  naming_note     : (未设置)\n"));
    assert!(show::run(&cat, "nope").is_err());
}

#[test]
fn missing_key_ref_and_fields_are_reported() {
    let mut overrides = ProvidersFile::default();
    overrides.providers.insert(
        "bare".to_string(),
        Provider { base_url: Some("https://bare/v1".into()), ..Default::default() },
    );
    overrides.providers.insert(
        "nourl".to_string(),
        Provider { env_prefix: Some("NOURL".into()), ..Default::default() },
    );
    let cat = load_merged(ProvidersFile::default(), ProvidersFile::default(), overrides);
    let err = credential_for(&cat, "bare", None).unwrap_err();
    assert_eq!(err, CliError::NoKeyRef("bare".into()));
    assert_eq!(err.to_string(), "provider `bare` has no key_ref configured, cannot fetch the key");
    assert_eq!(
        llmkeys::cli::env::run(&cat, "bare", "k").unwrap_err(),
        CliError::MissingField { id: "bare".into(), field: "env_prefix".into() }
    );
    let err = llmkeys::cli::env::run(&cat, "nourl", "k").unwrap_err();
    assert_eq!(err, CliError::MissingField { id: "nourl".into(), field: "base_url".into() });
    assert_eq!(err.to_string(), "provider `nourl` is missing the field `base_url`");
}

#[test]
fn langchain_with_embedding_block() {
    let cat = load_merged(snapshot::load(), ProvidersFile::default(), ProvidersFile::default());
    let out = code::run(&cat, "openrouter", "k").unwrap();
    assert!(out.starts_with("from langchain_openai import ChatOpenAI\n\nllm = ChatOpenAI(\n"));
    assert!(out.contains("embeddings = OpenAIEmbeddings(\n"));
    assert!(out.contains("model=\"baai/bge-m3\""));
}
