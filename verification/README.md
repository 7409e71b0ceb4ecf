# llmkeys

A credential and configuration manager for LLM providers: it keeps each
provider's base URL, model ids and `.env` prefix in a three-layer catalog
(built-in snapshot < models.dev cache < user overrides, merged field by field),
stores only *references* to API keys (`keychain:<provider>[#profile]`,
`bw:item/<name>`, `bw:id/<id>`, `env:<VAR>`), and prints ready-to-paste `.env`
or LangChain snippets.

## Layout

- `src/` — the library, verified with Verus: reference parsing and printing
  (with round-trip laws), the ordered map and the catalog merge (with its
  precedence laws), the secret backends' decisions, and the exact text of each
  command's output.
- `app/` — the `llmkeys` command: argument parsing, the overrides file and the
  models.dev cache on disk, the HTTP fetch, the keychain, the `bw` process,
  environment variables and the clipboard.
- `tests/` — tests of the library on concrete values.

The configuration lives in `$XDG_CONFIG_HOME/llmkeys/providers.toml`, the
models.dev cache in `$XDG_CACHE_HOME/llmkeys/modelsdev.json`.
