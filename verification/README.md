# rexec

A command-execution aggregator: a small per-user host runs commands for several
clients, shows them on one console, one at a time, and keeps a transcript. Clients
are a command line and a stdio tool server.

`src/` is the library. It holds what `rexec` decides and computes, proved with Verus:

| Module | What it holds |
|--------|---------------|
| `filter`, `output` | Output without control sequences, and its way to the console |
| `shell`, `console`, `render` | Quoted command lines, rendered entries, what the console shows and when |
| `protocol`, `connection`, `session` | The messages, and both ends of a connection |
| `command`, `pty_exec` | Starting a command, its timeout, its abort and how it ended |
| `host` | Taking over the socket, serving, numbering, feeding attached clients |
| `journal`, `transcript` | The order of entries; transcript files, listings and following |
| `pool`, `mcp`, `json` | Pooled connections, tool calls and their results |
| `cli`, `client`, `service`, `socket`, `clock` | Options, reports, the user service, paths, times |
| `text`, `encoding`, `lists`, `environment`, `paths` | Texts, bytes as text, lists, variables, paths |

Public proof functions whose names begin with `law_` state what holds across
functions. Calls into other crates stand behind functions marked
`#[verifier::external_body]`; their doc comments say what is believed of them.

`app/` is the program around it: sockets, terminals, threads, files and JSON.
`tests/` runs the library on concrete values.
