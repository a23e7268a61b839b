# rfrp

A reverse proxy in two halves: `rfrps`, the server with the public ports, and
`rfrpc`, the client next to the local services. This crate holds what they decide,
written and proved in Verus; it opens no socket and starts no task.

## Layout

- `src/` is the library.
  - `table`, `text`, `order`, `addr`, `clock`, `counter`, `ident`, `auth`, `http`,
    `exposition`: what both halves build on.
  - `msg`, `config`, `limits`: messages, configuration and bounds.
  - `rfrps/`: sessions and logins (`control`), registration and user connections
    (`listener`), work connections (`work`), UDP (`udp`, `packet`), routing by domain
    (`vhost`), the dashboard (`dashboard`, `basic`, `form`, `pages`, `status`), the
    main port (`server`) and the shared state (`state`, `session`, `metrics`).
  - `rfrpc/`: login and registration (`connect`, `client`, `retry`, `run_id`), the control
    connection (`control`), work connections (`workconn`), reconnects (`backoff`) and
    the status endpoint (`status`, `metrics`).
  - `laws` and `rfrps/laws`: what holds across several operations.
- `tests/` runs the library.
- `app/` is the I/O around it.

## How it is used

Streams, tasks and queues are known to the library by integer handles, and time is
nanoseconds since a `Clock` was started. A caller reports an event, gets back what is
to be done, does it, and reports what came of it. State is a plain value behind
`&mut`; callers that share it lock it.

Bounds that a deployment picks are fields of `limits::Limits`; every contract holds
for any value of them.

What the library has from elsewhere stands behind small functions with stated
contracts: UUIDs, base64, HTTP heads, byte buffers, the clock and a few functions on
strings.
