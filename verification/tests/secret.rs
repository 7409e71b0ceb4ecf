use llmkeys::cred_ref::{Backend, CredRef};
use llmkeys::secret::bw::{actionable, classify, finish_password, query_value, BwFailure, BwStore};
use llmkeys::secret::env::EnvStore;
use llmkeys::secret::keychain::{account, KeychainStore, KeyringRead};
use llmkeys::secret::SecretError;

fn cred(backend: Backend, locator: &str, profile: Option<&str>) -> CredRef {
    CredRef {
        backend,
        locator: locator.to_string(),
        profile: profile.map(str::to_string),
    }
}

#[test]
fn parse_item_and_id_locators() {
    assert_eq!(query_value("item/OpenRouter API Key").unwrap(), "OpenRouter API Key");
    assert_eq!(query_value("id/2a16-445b").unwrap(), "2a16-445b");
}

#[test]
fn reject_bad_locators() {
    assert!(query_value("openrouter").is_err());
    assert!(query_value("vault/x").is_err());
    assert!(query_value("item/").is_err());
}

#[test]
fn bad_locator_errors_name_the_kind() {
    assert_eq!(query_value("openrouter"), Err(SecretError::BwBadLocator));
    assert_eq!(query_value("vault/x"), Err(SecretError::BwUnknownKind("vault".to_string())));
    assert_eq!(query_value("item/"), Err(SecretError::BwEmptyValue("item".to_string())));
    assert_eq!(query_value("id/a/b").unwrap(), "a/b");
}

#[test]
fn finish_password_moves_trims_and_wraps() {
    assert_eq!(&*finish_password(b"sk-abc123\n".to_vec()).unwrap(), "sk-abc123");
    assert_eq!(&*finish_password(b"sk-xyz\r\n".to_vec()).unwrap(), "sk-xyz");
    assert_eq!(&*finish_password(b"no-newline".to_vec()).unwrap(), "no-newline");
}

#[test]
fn finish_password_rejects_empty() {
    for raw in [b"".as_slice(), b"\n", b"\r\n"] {
        let err = finish_password(raw.to_vec()).unwrap_err().to_string();
        assert!(err.contains("empty password"), "应报空密码错误,得到:{err}");
    }
}

#[test]
fn finish_password_rejects_invalid_utf8() {
    assert_eq!(finish_password(vec![0x73, 0x6b, 0xff, 0x0a]), Err(SecretError::BwNotUtf8));
    // Valid multi-byte UTF-8 is decoded, not passed through byte by byte.
    assert_eq!(finish_password("密钥\n".as_bytes().to_vec()).unwrap(), "密钥");
}

#[test]
fn classify_known_failures() {
    assert_eq!(classify("You are not logged in."), BwFailure::NotLoggedIn);
    assert_eq!(classify("Vault is locked."), BwFailure::Locked);
    assert_eq!(classify("Not found."), BwFailure::NotFound);
    match classify("some network error") {
        BwFailure::Other(m) => assert!(m.contains("network")),
        _ => panic!("应归类为 Other"),
    }
}

#[test]
fn classify_ignores_case_and_trims_other() {
    assert_eq!(classify("YOU ARE NOT LOGGED IN"), BwFailure::NotLoggedIn);
    assert_eq!(classify("No Items match"), BwFailure::NotFound);
    assert_eq!(classify("  \tboom\n"), BwFailure::Other("boom".to_string()));
}

#[test]
fn actionable_messages_are_helpful_and_keyless() {
    assert!(actionable(&BwFailure::NotLoggedIn).to_string().contains("bw login"));
    assert!(actionable(&BwFailure::Locked).to_string().contains("bw unlock"));
}

#[test]
fn bw_outcomes() {
    let store = BwStore;
    assert_eq!(store.get(true, b"sk-1\n".to_vec(), "").unwrap(), "sk-1");
    assert_eq!(store.get(false, vec![], "Not found."), Err(SecretError::BwNotFound));
    assert_eq!(store.get(false, vec![], "Vault is locked."), Err(SecretError::BwLocked));
    assert_eq!(store.key_exists(false, vec![], "Not found."), Ok(false));
    assert_eq!(store.key_exists(true, b"k".to_vec(), ""), Ok(true));
    assert_eq!(
        store.key_exists(false, vec![], "weird\n"),
        Err(SecretError::BwOther("weird".to_string()))
    );
    assert_eq!(
        store.query(&cred(Backend::Bw, "item/OpenRouter API Key", None)).unwrap(),
        "OpenRouter API Key"
    );
}

#[test]
fn set_is_unsupported_with_guidance() {
    let r = cred(Backend::Bw, "item/x", None);
    let err = BwStore.set(&r, "k".into()).unwrap_err();
    assert!(err.to_string().contains("create the item manually"));
}

#[test]
fn set_is_unsupported() {
    let err = EnvStore
        .set(&cred(Backend::Env, "WHATEVER", None), "k".into())
        .unwrap_err();
    assert!(err.to_string().contains("只读"));
}

#[test]
fn env_store_reads_the_given_value() {
    let r = cred(Backend::Env, "QIAO_TEST_ENV_BACKEND_VAR", None);
    assert_eq!(EnvStore.get(&r, Some("dummy-not-a-real-key".into())).unwrap(), "dummy-not-a-real-key");
    let err = EnvStore.get(&r, None).unwrap_err().to_string();
    assert!(err.contains("QIAO_TEST_ENV_BACKEND_VAR"));
    assert!(err.contains("export"));
}

#[test]
fn account_layout_matches_s2() {
    assert_eq!(account(&cred(Backend::Keychain, "openrouter", None)), "openrouter");
    assert_eq!(account(&cred(Backend::Keychain, "openrouter", Some("work"))), "openrouter#work");
}

#[test]
fn keychain_outcomes() {
    let r = cred(Backend::Keychain, "openrouter", Some("work"));
    let store = KeychainStore;
    assert_eq!(store.get(&r, KeyringRead::Found("secret".into())).unwrap(), "secret");
    assert_eq!(
        store.get(&r, KeyringRead::NoEntry).unwrap_err().to_string(),
        "keychain 中没有 openrouter#work 的 key;请先运行 `qiao key set openrouter#work`"
    );
    assert_eq!(store.key_exists(&r, KeyringRead::NoEntry), Ok(false));
    assert_eq!(store.key_exists(&r, KeyringRead::Found("x".into())), Ok(true));
    assert_eq!(
        store.key_exists(&r, KeyringRead::Failed("denied".into())).unwrap_err().to_string(),
        "查询 keychain 失败(account=openrouter#work): denied"
    );
    assert!(store.set(&r, Ok(())).is_ok());
}

#[test]
fn keychain_failure_messages() {
    let r = cred(Backend::Keychain, "deepseek", None);
    let store = KeychainStore;
    assert_eq!(
        store.get(&r, KeyringRead::Failed("locked".into())).unwrap_err().to_string(),
        "读取 keychain 失败(account=deepseek): locked"
    );
    assert_eq!(
        store.set(&r, Err("denied".into())).unwrap_err().to_string(),
        "写入 keychain 失败(account=deepseek): denied"
    );
    assert_eq!(
        store.open_failed(&r, "bad".into()).to_string(),
        "无法打开 keychain 条目(account=deepseek): bad"
    );
}
