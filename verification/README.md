# server_client

Servers that own their state and serve any number of clients over channels,
verified with Verus.

- `src/channel.rs`: two-way connections over crossbeam's unbounded channels.
- `src/id_map.rs`: `IdMap`, a map that chooses the ids of what it stores.
- `src/example.rs`: a counter server whose clients each hold a connection of
  their own; the server's decisions are proved against their contracts.
- `src/ordered.rs`: the same server with one shared, ordered request queue and
  the clients' reply channels kept in an `IdMap`.
- `src/codegen.rs`: the rules by which servers are generated from a
  description (names, channel paths, which methods can be served).
- `app/`: tokio-based asynchronous channels, the generation of servers as
  token streams with syn and quote, and the loop that drives an ordered
  server.
