# mini_raft_rs

A small Raft cluster: servers that elect a leader, a leader that tracks its
followers' log positions, and a client that sends commands to an in-memory
state machine of three integers.

`src/` is the library, verified with Verus:

- `state_machine` — the replicated state, commands and their (saturating) effect.
- `server` — a server's state and the decisions it takes on an election
  timeout, a message from another server or a client's request (`Server`:
  each returns what must be sent, and whether the election timer restarts),
  its log, the leader's per-follower indices
  (`VolatileLeaderState`, with the committable index as the median of the
  followers' next indices), the RPC message types and term syncing.
- `client` — the random-data client and the responses it receives.
- `domain::node_id` — node identifiers (UUIDs), `timeout` — random timeouts,
  `cluster` — cluster settings, `text` — decimal and padded text.

`app/` runs the program: channels, tasks, timers and printing, handing each
event to the library and sending what it decided. It also checks, before each
call, the limits the library states (an index or term at the machine's
maximum), failing as an overflow would.

`tests/` exercises the library on concrete values.
