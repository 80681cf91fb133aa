# dravr_tronc

The logic of a runtime for [MCP](https://modelcontextprotocol.io/) servers, verified with
[Verus](https://github.com/verus-lang/verus).

The library decides; a host acts. Given a request it answers, or says what is to be done first:
run a tool, ask the host, change a task. Given what came of it, it finishes the answer. It does the
same for identity tokens, for alerts, and for notifications: sockets, HTTP clients and the
environment stay outside and hand plain values in. Where a decision depends on the time, a function
takes it as an argument; beside it may stand one that reads the clock first.

| Module | What it holds |
|--------|---------------|
| `mcp::protocol`, `mcp::schema`, `mcp::modern`, `mcp::messages`, `mcp::capabilities`, `mcp::json_schema`, `mcp::reading` | the messages, the JSON they become, and how they are read back |
| `mcp::server`, `mcp::tool`, `mcp::host`, `mcp::computation` | dispatch, the registry of tools |
| `mcp::tasks` | tasks, their store, their life, and streams about them |
| `mcp::transport`, `mcp::auth` | the rules of the HTTP and stdio transports, and of a shared key |
| `server` | bearer keys, startup posture, request ids, health, the command line, logging |
| `iam` | Google identity tokens, asked for and checked |
| `notifications` | alerts about errors by Slack and email, product analytics |
| `notify` | routing of events to Slack |
| `json`, `decode`, `located`, `text`, `digits`, `clock`, `keyed`, `string_map` | plain values |

What each function does is stated in its contract. What holds of several functions together is
stated in public proof functions, such as `mcp::tasks::manager::settled_tasks_stay_settled`.

Some functions call other crates: `serde_json`, `chrono`, `clap`, `hex`, `jsonwebtoken`, `ring` and
`subtle`. What is believed of those calls stands in the contracts of the functions marked
`external_body`; each names the call.

`tests/` holds the tests. `app/` holds the ordinary Rust around the library: the axum routes, the
stdio loop, the HTTP clients, the tracing layers.
