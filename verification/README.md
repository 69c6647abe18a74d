# token_monitor

A local API proxy with live RPM / TPM statistics. It listens on
`http://127.0.0.1:8188` (the port is configurable) and accepts three request
formats:

- `POST /v1/chat/completions` (OpenAI Chat Completions)
- `POST /v1/responses` (OpenAI Responses)
- `POST /v1/messages` (Anthropic Messages)

Each request is sent to the upstream format of the channel that the scheduler
picks (Responses, Chat Completions or Anthropic), and the reply, streamed or
not, is converted back to the client's format. Every request is counted per
minute (requests and input / output / cached tokens).

## Layout

- `src/` — the library, written in Verus: its functions carry `requires` /
  `ensures` contracts that Verus proves. The exceptions are a few trusted
  wrappers (`#[verifier::external_body]`) around std, `serde_json`, `reqwest`
  and `chrono` calls, whose contracts are taken as given, and the clock and
  random-number readings, of which nothing is stated. Modules:
  - `json`, `text` — JSON values and string helpers with their models;
  - `convert` — request conversion between the three formats;
  - `respond` — non-streaming reply conversion and token usage;
  - `sse`, `stream` — server-sent event framing and the stream converters,
    one state machine per direction;
  - `route` — payload planning, refusals and the retry rule;
  - `scheduler`, `clock` — channel selection under concurrency / RPM / TPM
    limits;
  - `stats`, `proxy` — the concurrency gate, slot guards, leases, the
    per-minute buckets and the proxy state;
  - `settings`, `balance`, `probe`, `codeg` — the settings kept in
    `token-monitor.json`, the DeepSeek balance query, the connection probe and
    the Codeg session monitor.
  The `law_*` proof functions state properties that span several calls
  (for example, that a released slot undoes its acquisition).
- `app/` — the program around the library: the HTTP server, upstream calls,
  the SQLite store, configuration file I/O and the desktop commands.
- `tests/` — tests of the library on concrete values.
