# logdb — Vector Collector

A single-process log collector for [Vector](https://vector.dev) agents, with
search over REST and MCP. The decisions of the service are a library verified
with Verus; the server around it is ordinary Rust.

## Layout

- `src/` — the verified library (`logdb`):
  - `text.rs`, `hex.rs` — character-level string operations and hex, each
    proved against a short spec function;
  - `auth.rs` — API keys, bearer tokens, signed session cookies, admin
    credentials, sessions, agent registration;
  - `ingest.rs` — the JSON model of Vector events, batch reading, event
    normalisation, correlation ids, the embedding policy, ingest counters;
  - `query.rs` — full-text queries, time windows, cursors, the `WHERE`
    clause and search plans, pagination, facets, context, agent status;
  - `settings.rs` — stored settings, defaults, what is stored and loaded,
    retention;
  - `mcp.rs`, `routes.rs`, `vector_presets.rs`, `openapi.rs`, `error.rs` —
    MCP method and tool dispatch, request helpers, Vector configuration
    presets, response bodies, errors and their HTTP mapping;
  - `bindings.rs` — the calls into outside crates (sha2, hmac, rand, argon2,
    base64, chrono, regex, flate2) behind contracts that Verus trusts.
- `app/` — the HTTP server (axum), SQLite storage (rusqlite), the ingest
  writer, background workers, the embeddings client and rate limiter
  (floating point), and the OpenAPI documents.
- `tests/` — tests of the library on concrete values.
