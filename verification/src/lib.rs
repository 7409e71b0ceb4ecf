//! Verified core of `llmkeys`, a credential and configuration manager for LLM
//! providers: credential references, the three-layer provider catalog, what the
//! secret backends' outcomes mean, and the text every command prints.
//!
//! - [`cred_ref`]: `<backend>:<locator>[#profile]` references, parsed and printed.
//! - [`catalog`]: the snapshot < models.dev < overrides merge, field by field.
//! - [`model`]: one catalog layer; [`strmap`]: its ordered string-keyed map.
//! - [`secret`]: keychain, `bw` and `env` backends, as decisions on outcomes.
//! - [`cli`] and [`render`]: what `list`, `show`, `env`, `code` and `key` print.
//! - [`text`]: character-level helpers.
//!
//! Files, the network, processes, the keychain and the clipboard are the
//! caller's part; they hand plain values in and get plain values back.

pub mod catalog;
pub mod cli;
pub mod cred_ref;
pub mod model;
pub mod render;
pub mod secret;
pub mod strmap;
pub mod text;
