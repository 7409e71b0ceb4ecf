use llmkeys::cred_ref::{Backend, CredRef, CredRefError};

fn parse(s: &str) -> Result<CredRef, CredRefError> {
    s.parse()
}

#[test]
fn keychain_default_profile() {
    let r = parse("keychain:openrouter").unwrap();
    assert_eq!(r.backend, Backend::Keychain);
    assert_eq!(r.locator, "openrouter");
    assert_eq!(r.profile, None);
}

#[test]
fn keychain_with_profile() {
    let r = parse("keychain:openrouter#work").unwrap();
    assert_eq!(r.backend, Backend::Keychain);
    assert_eq!(r.locator, "openrouter");
    assert_eq!(r.profile.as_deref(), Some("work"));
}

#[test]
fn bw_item_by_name_with_slash_and_spaces() {
    let r = parse("bw:item/OpenRouter API Key").unwrap();
    assert_eq!(r.backend, Backend::Bw);
    assert_eq!(r.locator, "item/OpenRouter API Key");
    assert_eq!(r.profile, None);
}

#[test]
fn bw_item_by_id() {
    let r = parse("bw:id/2a16-445b-...").unwrap();
    assert_eq!(r.backend, Backend::Bw);
    assert_eq!(r.locator, "id/2a16-445b-...");
    assert_eq!(r.profile, None);
}

#[test]
fn env_variable() {
    let r = parse("env:OPENROUTER_API_KEY").unwrap();
    assert_eq!(r.backend, Backend::Env);
    assert_eq!(r.locator, "OPENROUTER_API_KEY");
    assert_eq!(r.profile, None);
}

#[test]
fn err_missing_colon() {
    assert_eq!(
        parse("openrouter"),
        Err(CredRefError::MissingColon("openrouter".to_string()))
    );
}

#[test]
fn err_unknown_backend() {
    assert_eq!(
        parse("vault:something"),
        Err(CredRefError::UnknownBackend("vault".to_string()))
    );
}

#[test]
fn err_empty_locator() {
    assert_eq!(parse("keychain:"), Err(CredRefError::EmptyLocator));
}

#[test]
fn err_empty_locator_with_profile() {
    assert_eq!(parse("keychain:#work"), Err(CredRefError::EmptyLocator));
}

#[test]
fn err_empty_profile() {
    assert_eq!(parse("keychain:openrouter#"), Err(CredRefError::EmptyProfile));
}

#[test]
fn rejects_bws_backend() {
    assert_eq!(
        parse("bws:secret/id"),
        Err(CredRefError::UnknownBackend("bws".to_string()))
    );
}

#[test]
fn first_colon_only_split() {
    let r = parse("bw:id/abc:def").unwrap();
    assert_eq!(r.backend, Backend::Bw);
    assert_eq!(r.locator, "id/abc:def");
}

#[test]
fn profile_split_from_end() {
    let r = parse("bw:item/My Key#work").unwrap();
    assert_eq!(r.locator, "item/My Key");
    assert_eq!(r.profile.as_deref(), Some("work"));
}

#[test]
fn display_round_trip() {
    for s in [
        "keychain:openrouter",
        "keychain:openrouter#work",
        "bw:item/OpenRouter API Key",
        "env:OPENROUTER_API_KEY",
    ] {
        assert_eq!(parse(s).unwrap().to_string(), s);
    }
}

#[test]
fn locator_keeps_earlier_hashes_and_round_trips() {
    // Only the last '#' starts the profile; the printed text parses back the same.
    let r = parse("bw:item/a#b#work").unwrap();
    assert_eq!(r.locator, "item/a#b");
    assert_eq!(r.profile.as_deref(), Some("work"));
    assert_eq!(r.to_string(), "bw:item/a#b#work");
    assert_eq!(parse(&r.to_string()).unwrap(), r);
}

#[test]
fn non_ascii_locator_round_trips() {
    let r = parse("keychain:供应商#工作").unwrap();
    assert_eq!(r.locator, "供应商");
    assert_eq!(r.profile.as_deref(), Some("工作"));
    assert_eq!(r.to_string(), "keychain:供应商#工作");
}

#[test]
fn backend_names_and_parse() {
    assert_eq!(Backend::Keychain.as_str(), "keychain");
    assert_eq!(Backend::Bw.as_str(), "bw");
    assert_eq!(Backend::Env.as_str(), "env");
    assert_eq!("env".parse::<Backend>(), Ok(Backend::Env));
    assert_eq!(
        "Keychain".parse::<Backend>(),
        Err(CredRefError::UnknownBackend("Keychain".to_string()))
    );
}

#[test]
fn error_messages_name_the_reference() {
    assert_eq!(
        CredRefError::MissingColon("openrouter".to_string()).to_string(),
        "credential reference is missing the ':' separator: expected `<backend>:<locator>[#profile]`, got `openrouter`"
    );
    assert_eq!(
        CredRefError::UnknownBackend("bws".to_string()).to_string(),
        "unknown key backend `bws`: only keychain | bw | env are supported"
    );
    assert!(CredRefError::EmptyLocator.to_string().contains("locator is empty"));
    assert!(CredRefError::EmptyProfile.to_string().contains("profile is empty"));
}
