# taphttp

A headless, TLS-terminating HTTP(S) interception proxy for authorized testing and
local development. It logs every exchange as JSON lines (optionally also to
SQLite), lets you query the log, and replays captured requests with overrides.

The decisions and data handling are a library verified with Verus (`src/`):

- `text`: cutting at a byte count, substring search, line splitting, trimming,
  padding and decimal rendering, each proved against a specification.
- `textmap`: a text-keyed map that keeps each key once (headers, the
  certificate cache).
- `store`: the traffic entry, the JSON-lines framing, log queries, lookup by id,
  and the table the `logs` command prints.
- `exchange`: which requests are recorded, host and URL handling, header
  collection and forwarding, and the entry and client answer made of a request
  and its upstream reply.
- `replay`: method, header and body overrides of a replay.
- `ca`: the local CA through `rcgen`, and the per-host TLS configuration cache.
- `cli`: the command line's shape and the data directory.

`app/` holds the program around it: argument parsing, files, SQLite, the
network and TLS plumbing, and printing.
