//! Secret backends: keychain, Bitwarden CLI (`bw`) and environment variables.
//!
//! The library decides; the caller talks to the backend. No message here ever
//! holds a key: they name references, accounts, variables and backend errors.

pub mod bw;
pub mod env;
pub mod keychain;

use vstd::prelude::*;

verus! {

/// Which keychain operation failed.
#[derive(Debug, Clone, Copy, PartialEq, Eq, Structural)]
pub enum KeychainOp {
    Open,
    Read,
    Write,
    Query,
}

/// A backend failure, with an actionable message.
#[derive(Debug, PartialEq, Eq)]
pub enum SecretError {
    /// A bw locator without `/`.
    BwBadLocator,
    /// A bw locator `item/` or `id/` with nothing after the slash; carries the kind.
    BwEmptyValue(String),
    /// A bw locator whose kind is neither `item` nor `id`; carries the kind.
    BwUnknownKind(String),
    BwNotLoggedIn,
    BwLocked,
    BwNotFound,
    /// Any other `bw` failure; carries its trimmed stderr.
    BwOther(String),
    BwNotUtf8,
    BwEmptyPassword,
    BwWriteUnsupported,
    /// The variable is not set; carries its name.
    EnvNotSet(String),
    EnvWriteUnsupported,
    /// No keychain entry; carries the account.
    KeychainNoEntry(String),
    /// The keychain call failed; carries the account and the backend's message.
    KeychainFailure { op: KeychainOp, account: String, cause: String },
}

/// A backend failure as values.
pub enum SecretFault {
    BwBadLocator,
    BwEmptyValue(Seq<char>),
    BwUnknownKind(Seq<char>),
    BwNotLoggedIn,
    BwLocked,
    BwNotFound,
    BwOther(Seq<char>),
    BwNotUtf8,
    BwEmptyPassword,
    BwWriteUnsupported,
    EnvNotSet(Seq<char>),
    EnvWriteUnsupported,
    KeychainNoEntry(Seq<char>),
    KeychainFailure { op: KeychainOp, account: Seq<char>, cause: Seq<char> },
}

impl View for SecretError {
    type V = SecretFault;

    open spec fn view(&self) -> SecretFault {
        match self {
            SecretError::BwBadLocator => SecretFault::BwBadLocator,
            SecretError::BwEmptyValue(k) => SecretFault::BwEmptyValue(k@),
            SecretError::BwUnknownKind(k) => SecretFault::BwUnknownKind(k@),
            SecretError::BwNotLoggedIn => SecretFault::BwNotLoggedIn,
            SecretError::BwLocked => SecretFault::BwLocked,
            SecretError::BwNotFound => SecretFault::BwNotFound,
            SecretError::BwOther(m) => SecretFault::BwOther(m@),
            SecretError::BwNotUtf8 => SecretFault::BwNotUtf8,
            SecretError::BwEmptyPassword => SecretFault::BwEmptyPassword,
            SecretError::BwWriteUnsupported => SecretFault::BwWriteUnsupported,
            SecretError::EnvNotSet(n) => SecretFault::EnvNotSet(n@),
            SecretError::EnvWriteUnsupported => SecretFault::EnvWriteUnsupported,
            SecretError::KeychainNoEntry(a) => SecretFault::KeychainNoEntry(a@),
            SecretError::KeychainFailure { op, account, cause } => SecretFault::KeychainFailure {
                op: *op,
                account: account@,
                cause: cause@,
            },
        }
    }
}

/// The context line of a failed keychain operation, up to the account.
pub open spec fn keychain_context(op: KeychainOp) -> Seq<char> {
    match op {
        KeychainOp::Open => "无法打开 keychain 条目(account="@,
        KeychainOp::Read => "读取 keychain 失败(account="@,
        KeychainOp::Write => "写入 keychain 失败(account="@,
        KeychainOp::Query => "查询 keychain 失败(account="@,
    }
}

/// The message of each backend failure.
pub open spec fn secret_message(f: SecretFault) -> Seq<char> {
    match f {
        SecretFault::BwBadLocator => "a bw reference locator must look like `item/<name>` or `id/<id>`"@,
        SecretFault::BwEmptyValue(k) => "the bw locator must not be empty after `"@ + k + "/`"@,
        SecretFault::BwUnknownKind(k) => "Unknown bw locator type `"@ + k
            + "`: only `item` / `id` are supported"@,
        SecretFault::BwNotLoggedIn => "Not logged in to Bitwarden: run `bw login` first (self-hosted: first `bw config server <your Vaultwarden URL>`)"@,
        SecretFault::BwLocked => "Bitwarden is locked: run `bw unlock` and `export BW_SESSION=<returned session>` first"@,
        SecretFault::BwNotFound => "No matching item found in Bitwarden"@,
        SecretFault::BwOther(m) => "bw call failed: "@ + m,
        SecretFault::BwNotUtf8 => "bw returned content that is not valid UTF-8"@,
        SecretFault::BwEmptyPassword => "bw returned an empty password: the item may have no password field (the API key may live in a custom field or note; v1 only reads the password field)"@,
        SecretFault::BwWriteUnsupported => "v1 does not support writing to Bitwarden through llmkeys; create the item manually in a Bitwarden client, then reference it with `bw:item/<name>`"@,
        SecretFault::EnvNotSet(n) => "环境变量 "@ + n + " 未设置;请先 `export "@ + n + "=<key>`"@,
        SecretFault::EnvWriteUnsupported => "env 后端是只读兜底,不支持写入;请改用 keychain(`qiao key set <id>`)或自行 `export`"@,
        SecretFault::KeychainNoEntry(a) => "keychain 中没有 "@ + a + " 的 key;请先运行 `qiao key set "@ + a
            + "`"@,
        SecretFault::KeychainFailure { op, account, cause } => keychain_context(op) + account
            + "): "@ + cause,
    }
}

impl SecretError {
    /// The human-readable message.
    pub fn to_string(&self) -> (r: String)
        ensures
            r@ == secret_message(self@),
    {
        match self {
            SecretError::BwBadLocator => "a bw reference locator must look like `item/<name>` or `id/<id>`".to_owned(),
            SecretError::BwEmptyValue(k) => {
                let mut m = "the bw locator must not be empty after `".to_owned();
                m.append(k.as_str());
                m.append("/`");
                m
            },
            SecretError::BwUnknownKind(k) => {
                let mut m = "Unknown bw locator type `".to_owned();
                m.append(k.as_str());
                m.append("`: only `item` / `id` are supported");
                m
            },
            SecretError::BwNotLoggedIn => "Not logged in to Bitwarden: run `bw login` first (self-hosted: first `bw config server <your Vaultwarden URL>`)".to_owned(),
            SecretError::BwLocked => "Bitwarden is locked: run `bw unlock` and `export BW_SESSION=<returned session>` first".to_owned(),
            SecretError::BwNotFound => "No matching item found in Bitwarden".to_owned(),
            SecretError::BwOther(msg) => {
                let mut m = "bw call failed: ".to_owned();
                m.append(msg.as_str());
                m
            },
            SecretError::BwNotUtf8 => "bw returned content that is not valid UTF-8".to_owned(),
            SecretError::BwEmptyPassword => "bw returned an empty password: the item may have no password field (the API key may live in a custom field or note; v1 only reads the password field)".to_owned(),
            SecretError::BwWriteUnsupported => "v1 does not support writing to Bitwarden through llmkeys; create the item manually in a Bitwarden client, then reference it with `bw:item/<name>`".to_owned(),
            SecretError::EnvNotSet(n) => {
                let mut m = "环境变量 ".to_owned();
                m.append(n.as_str());
                m.append(" 未设置;请先 `export ");
                m.append(n.as_str());
                m.append("=<key>`");
                m
            },
            SecretError::EnvWriteUnsupported => "env 后端是只读兜底,不支持写入;请改用 keychain(`qiao key set <id>`)或自行 `export`".to_owned(),
            SecretError::KeychainNoEntry(a) => {
                let mut m = "keychain 中没有 ".to_owned();
                m.append(a.as_str());
                m.append(" 的 key;请先运行 `qiao key set ");
                m.append(a.as_str());
                m.append("`");
                m
            },
            SecretError::KeychainFailure { op, account, cause } => {
                let mut m = match op {
                    KeychainOp::Open => "无法打开 keychain 条目(account=".to_owned(),
                    KeychainOp::Read => "读取 keychain 失败(account=".to_owned(),
                    KeychainOp::Write => "写入 keychain 失败(account=".to_owned(),
                    KeychainOp::Query => "查询 keychain 失败(account=".to_owned(),
                };
                m.append(account.as_str());
                m.append("): ");
                m.append(cause.as_str());
                m
            },
        }
    }
}

} // verus!
