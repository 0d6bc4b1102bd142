# ad-nope

A DNS sinkhole that answers queries for advertising and tracking domains
with unspecified addresses (or NXDOMAIN) and forwards the rest to upstream
resolvers, with a cache, query statistics, query logs and an HTTP API.

## Layout

- `src/` is the verified library (Verus):
  - `engine/` — blocklist parsing, the suffix matcher and the pause state;
  - `server.rs` — the per-query decisions of the DNS handler (name
    normalization, local records, blocklist, cache timing, upstream);
  - `resolver.rs` — upstream URLs, strategy selection, round-robin order;
  - `stats.rs` — counters, per-client and per-domain tallies, top lists;
  - `logger/` — query-log records, console rendering, the in-memory ring
    buffer and the choice of sinks;
  - `config.rs`, `db.rs`, `init.rs`, `api.rs`, `text.rs` — settings and
    their defaults, the stored form of log actions, start-up decisions and
    text primitives.
- `app/` is the program around it: the TOML file, tokio tasks, hickory
  server and resolvers, SQLite, reqwest downloads and the axum API.
- `tests/` exercises the library from outside.
