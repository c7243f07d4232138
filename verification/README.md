# raita

Nodes for the Fly.io distributed systems challenge, run under Maelstrom: echo, unique ids,
broadcast with deterministic gossip, and a grow-only counter built on the `seq-kv` service.

The decisions of every node are written in Verus and proved against mathematical models:

- `src/message.rs`: message envelopes, events, replies and their views.
- `src/state.rs`: the common node state (identity, declared nodes, topology, neighborhood,
  received messages, and what each peer is known to have), with a model `StateView`.
- `src/node_set.rs`, `src/node_map.rs`: an ordered set and a map keyed by node identifiers.
- `src/sets.rs`: loops over sets of message values.
- `src/init.rs`, `src/echo.rs`, `src/unique_id.rs`, `src/broadcast.rs`, `src/counter.rs`: one
  step function per workload; each takes an event and the state, updates the state and returns
  the messages to send, exactly as its model function says.
- `src/laws.rs`: properties that span steps, such as "after a gossip round no neighbor misses a
  message" or "a counter read answers with the sum of the shares".

`app/` holds the program: it reads JSON lines from standard input, converts them to the
library's types, calls the step functions and writes the replies.
