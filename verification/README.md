# cc_proxy

A transparent proxy for coding-agent model APIs: it routes each request to a
configured provider by model tier, relays streamed replies, prices them, and
records what happened for a dashboard.

The decision logic is a library verified with Verus (`src/`):

- `config` — the configuration model, migration, validation, tier routing,
  pricing and the compact form tier rules are written in.
- `json`, `text`, `messages` — the JSON value model and the text operations the
  parsers are stated over.
- `relay` — protocol detection, route planning, request rewriting, header
  handling, SSE parsing, stream collection, capture files and MCP forwarding.
- `response` — normalising accumulated responses.
- `session` — observations from each source (API streams, hooks, telemetry),
  correlation priority, the model-call and tool-invocation rows each
  observation materialises, reconciliation plans, the session timeline and
  archive documents.
- `server` — dashboard authentication, settings changes, cost reports, hook
  intake, task export cleanup and the WebSocket state machine.

`app/` is the server around it: listeners, HTTP plumbing, the configuration
file, the SQLite tables the session rows are kept in, and the conversions
between wire formats and the library's values.
`tests/` exercises the library on concrete values.
