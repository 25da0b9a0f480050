# notebooklm_mcp

A client for Google NotebookLM's internal `batchexecute` RPC API, served as an
MCP server over stdio and as a command line tool.

The library under `src/` is verified with Verus. It holds what the client
decides and computes: the RPC payloads, the readers of Google's positional
JSON answers, the chunked response format, error classification, the
artifact options and their parameter arrays, share settings, the polling,
retry and backoff decisions, the conversation cache, session and cookie
checks, download planning and the texts the server answers with. Each
public function states its result in its contract; the laws that tie
several functions together are public proof functions named `law_*`.

Calls into outside crates (regex, html-escape, url, serde_json) and a few
`std` calls stand behind trusted wrappers in `src/outside.rs` and
`src/text.rs`, each with the contract the library assumes of it.

`app/` is ordinary Rust around the library: the HTTP client (reqwest), the
rate limiter, the keyring, the MCP server (rmcp) and the command line
(clap). It hands the library plain values and acts on what comes back.

Layout of `src/`:

- `json.rs`, `text.rs`: the JSON value model and text helpers with specs.
- `errors.rs`: error kinds, their messages and classification.
- `rpc/`: artifacts, notebooks, notes and sources: options, codes, payloads, readers.
- `parser.rs`, `response_chunks.rs`: reading batchexecute answers.
- `client.rs`, `payloads.rs`, `requests.rs`, `replies.rs`: the client's decisions.
- `artifact_poller.rs`, `source_poller.rs`, `research_poller.rs`, `retry.rs`: waiting and retrying.
- `conversation_cache.rs`, `auth_helper.rs`, `auth_browser.rs`, `browser_headers.rs`, `update_checker.rs`.
