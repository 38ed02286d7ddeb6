# cockpit_tools

The account and platform-package logic of Cockpit Tools, a desktop manager
for AI coding assistants' logins, written in Verus: every function in `src/`
carries a contract that Verus proves.

## Layout

- `src/codex*.rs` — Codex accounts: the account model and store index,
  upserting logins from tokens, access tokens and API keys, importing JSON
  and files, reading Codex's `auth.json` and `config.toml` back, writing
  them, quota alerts and automatic switching, and the homes a login is
  written through to.
- `src/platform_package.rs`, `src/package_index.rs` — platform packages:
  manifests, versions, sources, the registry and the package index.
- `src/adapter.rs`, `src/startup.rs` — the platform adapters' protocol,
  host events and retries, and what is restored at start-up.
- `src/scheduler.rs`, `src/quota_reset.rs`, `src/wakeup.rs`, `src/cron.rs`, `src/keeper.rs` —
  wake-up tasks, crontab expressions, quota-reset triggers and token
  refresh back-off.
- `src/opencode.rs`, `src/codebuddy.rs` — OpenCode's `auth.json` entries
  and CodeBuddy accounts.
- `src/external.rs` — the trusted wrappers around `url`, `md5`, `base64`,
  `serde_json`, `toml_edit`, `chrono` and `sha2`; their contracts are not
  proved.
- `src/text.rs`, `src/strings.rs`, `src/keyed.rs` — text and list helpers
  with their specifications.
- `app/` — a command-line front end that reads and writes the files and
  hands every decision to the library.
- `tests/` — tests of the library on concrete values.
