# postern-daemon

The daemon of a credential gateway. Clients name a resource by its code and say what
they want done; the daemon decides, connects with credentials that clients never
see, and answers with what is left after scrubbing.

`src/` is the library, verified with Verus: the request pipeline, the connection
pool, authentication, scrubbing, the boot sequence and the control plane's rules.
It decides; it does no I/O. What has to wait for something outside is a state
machine that says what to do next and takes what came of it.

| module | what it holds |
| --- | --- |
| `kernel` | the pipeline from a request to its answer, and what is recorded on the way |
| `connpool` | lending, opening and taking back connections; backoff; limits |
| `identity` | who a request comes from: local processes, keys and tokens |
| `sanitize` | masking of declared fields in what leaves |
| `shells` | the two entrances, HTTP and MCP, and what they show |
| `control` | the control plane: reads, writes, approvals, access, the self-test |
| `boot`, `assemble` | the order of the start, the sockets, the self-check |
| `bootstrap`, `config` | setting up a home, and settings from arguments and environment |
| `sweeper` | what is recycled, and its record |
| `registry`, `table`, `text`, `domain`, `error`, `witness` | what the others share |

`app/` is ordinary Rust around it: sockets, HTTP, JSON, files, waiting, and the
calls into the store, the vault and the policy core. `tests/` runs the library on
concrete values.

Laws that relate several functions are public proof functions beside what they
speak of. What is believed without proof is marked `external_body` or
`assume_specification`, and each such item says what it claims of which function.
