# socks_router

A SOCKS5 (and HTTP CONNECT) proxy that sends each destination either to an
upstream SOCKS5 proxy chosen by routing rules (regular expressions and CIDR
blocks, read from a YAML file) or directly to the destination.

- `src/` is the verified library: the routing rules and how a destination is
  matched against them, the route cache and the router that combines both,
  the SOCKS5 UDP relay header (reading and writing), the HTTP `CONNECT`
  request parser, the per-destination statistics, and the byte tally of a
  relayed connection. Each public function states its behaviour in
  `requires`/`ensures`, and the `law_*` proof functions state properties that
  span several calls.
- `app/` is the program around it: command line, daemon mode, logging, the
  YAML file and its watcher, sockets, the relay loops and the processes that
  routes start.
- `tests/` runs the library on concrete values.
