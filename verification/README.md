# mcp_kit

Verified core of an MCP (Model Context Protocol) server toolkit, written in
Verus.

- `src/` is the library; every function in it carries a contract that Verus
  proves.
  - `server/`: sessions, the two-way resource subscription tables
    (`pair_index`, `subscription`), client roots, request cancellation and
    sampling requests.
  - `plugin/wasm.rs`: loading a WASM module (through `wasmtime`) and turning
    its exported functions into tools.
  - `transport/websocket.rs`: what a WebSocket connection does with each frame.
  - `cloudflare/`: the stateless server for serverless workers: its registry,
    method routing, URI template matching, HTTP routing and the demo server's
    text tools and prompts.
  - `client/error.rs`: client errors and their messages.
- `app/` is the asynchronous shell: locks around the managers, the sampling
  channel, the axum WebSocket server and the Workers entry point.
- `tests/` runs the library on concrete inputs.

## Collections

The maps of the server state are held as vectors with an invariant that
no key occurs twice, rather than as `HashMap`s:

- `cloudflare::registry::Registry` (tools, resources and prompts by name),
- `server::pair_index::PairIndex` (the two subscription tables),
- `server::cancellation::CancellationManager` (pending requests by session
  and request id).

Their keys are strings, or a session id paired with a request id. vstd
specifies `HashMap` lookups only for keys whose hashing and equality it
models; it gives no useful specification for `String`-keyed maps (nor for
keys of a struct with derived `Eq` and `Hash`), so with them nothing could
be proved about what a lookup finds. A vector searched by string equality, with the
no-duplicates invariant, gives the same behaviour (one entry per key) and
lets every operation state exactly which entries remain. The registry also
keeps registration order, which the listings report.
