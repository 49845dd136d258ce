# codex_xray

A library, verified with Verus, for watching and steering local Codex use:
token and cost reports from Codex's session logs, the pricing tables they are
priced with, provider and settings changes to Codex's configuration with their
restore points, the Chat Completions bridge that lets Codex talk to
Chat-only providers, and WeChat remote control of an existing Codex task.

Every function under `src/` carries a `requires`/`ensures` contract over
mathematical models (spec functions, `Seq`, `Map`, views), and Verus proves the
code against it. Calls into outside crates (`chrono`, `url`, `serde_json`,
`keyring`, `memchr`, `base64`) stand behind small trusted wrappers whose
contracts say what those crates document.

Layout:

- `src/` — the verified library, one module per concern (`cost_report`,
  `project_report`, `pricing`, `provider`, `settings`, `responses`,
  `response_stream`, `remote_control`, `rate_limits`, ...).
- `tests/` — tests on concrete values, run against the compiled library.
- `app/` — a command-line shell that reads files and the SQLite database,
  hands their contents to the library and prints the results as JSON.
