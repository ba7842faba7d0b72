# zeroclaw-a2a

A minimal subset of the A2A (Agent-to-Agent) protocol, verified with Verus: two agents can
talk to each other over HTTP and JSON-RPC 2.0.

- `src/` is the library. It decides: what the endpoints answer, which tasks the store keeps,
  which peers may be called and with what, and what comes of a peer's answer. Every function
  has a contract that Verus proves; the few that call other crates are marked and say what is
  taken on trust.
- `app/` puts the library on the network: axum handlers, and a reqwest client for the tool.
- `tests/` runs the library with the real crates linked.

| module | what it holds |
|---|---|
| `json` | JSON values, their model, parsing and rendering through `serde_json` |
| `web`, `auth` | statuses, headers, bearer authentication |
| `config`, `card` | the configuration and the agent card |
| `message`, `rpc`, `tasks` | incoming messages, the JSON-RPC endpoint, the bounded task store |
| `delegate`, `endpoint` | delegation to registered peers, detection of local endpoints |
| `exchange` | what holds when one agent delegates to another |
| `clock`, `ids`, `text` | time, fresh identifiers, strings |

Properties that span functions are public proof functions whose names start with `law_`.
