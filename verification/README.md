# sandboxed

The decision logic of the sandboxed.sh control plane, written and verified in Verus.

`src/` is the library. Every function states in its contract what it returns for every
input that it takes; what it does not take, such as a moment past the last date, its
`requires` leaves out. Contracts speak of mathematical models: texts are sequences of
characters, JSON values are `JsonView`s, stores are maps, and moments are numbers. Proof
functions whose names begin with `law_` state what holds of several functions together.

| Modules | What they hold |
|---|---|
| `text`, `textmap`, `taskmap`, `ids`, `clock` | texts, maps keyed by text, UUIDs, moments |
| `json`, `json_text`, `json_members` | JSON values; reading and printing them with `serde_json` |
| `backend`, `codex`, `codex_app_server`, `gemini` | events of the agent backends |
| `telegram`, `telegram_html`, `telegram_delivery`, `telegram_send`, `telegram_stream` | the Telegram bridge |
| `auth`, `password`, `token`, `github`, `github_connect` | logins, password hashes, JWTs, the GitHub connection |
| `orchestrator`, `orchestrator_tools` | the MCP server through which a boss runs its workers |
| `bg_autoresume`, `native_loop`, `spark`, `metadata_llm` | background tasks, goal loops, build offload, mission titles |

What the library asks of other crates (`serde_json`, `uuid`, `chrono`, `hex`, `pbkdf2`,
`rand`, `jsonwebtoken`, `url`) stands behind small functions marked
`#[verifier::external_body]`, each with a comment that says what is believed of the call.

Where outside work and decisions alternate, the library holds a function from progress to the
next step, and `app/` does the work: HTTP, processes, files and channels. `app/main.rs` is the
`orchestrator-mcp` program, which speaks JSON-RPC over stdio.

`tests/` runs the library on concrete values, with the outside crates linked.
