# manual_connector

The connector manager of a mesh VPN node: it keeps the connectors that the user
configured, finds the ones whose connection is gone, and reconnects them.

The decisions are a library that is verified with Verus (`src/`). The tasks,
timers, sockets and HTTP requests around them are ordinary Rust (`app/`).

| module | what it holds |
| --- | --- |
| `manager` | connectors at rest and out for reconnection, live URLs, pending removals |
| `laws` | what holds of the manager across its operations |
| `reconnect` | which URL and which IP versions to try, and when to give up |
| `attempt` | the steps of one attempt to connect |
| `redirect` | following HTTP redirects from a connector's URL |
| `rpc` | the remote interface |
| `order`, `text` | ascending lists of texts; searching and cutting text |
| `dash`, `net` | what is trusted of the crates `dashmap`, `url` and `reqwest` |
| `types` | plain values shared by the others |

`text` counts positions in characters. A connector is a `u64` handle that its
owner chose; the manager never looks behind it.
