# web_transport

The transport layer of an external component for 1C. It keeps a WebSocket link from a 1C client to a
session manager, hands what the manager sends to 1C as external events, and sends what 1C answers.

`src/` is the library. It decides and does no input or output, and Verus proves what its contracts
say.

| Module | What it holds |
|--------|---------------|
| `session_params` | Where the parameters of a session come from, and their JSON text |
| `addin_host` | Delivery of events to 1C, their pacing, and a host in memory |
| `tunnel` | One session: what each event of the transport leads to |
| `reconnect` | The series of sessions: attempts, notices to 1C, and when to stop |
| `session`, `session_integration` | The class `session` as 1C drives it, and the frames of its link |
| `system_capability` | The methods `addin.spawn` and `addin.kill`, and the registry of processes |
| `headers`, `log_filter`, `component` | Request headers, the filter of the log, the classes and the version |
| `json`, `text` | JSON text and text primitives |

The functions named `law_...` state what holds across functions: of whole runs, of two calls, of
texts that must not be confused.

`app/` is ordinary Rust around the library: what the platform loads, the runtime, sockets and
processes. `tests/` runs the library.
