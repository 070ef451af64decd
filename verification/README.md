# rindexer

Indexing of event logs on EVM chains: the history of an event up to a snapshot, new blocks as they
become safe from a reorganisation, and events that depend on each other.

- `src/` decides. It is written in Verus, and its contracts and laws are proved.
  - `fetch_logs.rs`: which range of blocks to request next, and what to do after an error.
  - `retry.rs`: the range that a provider's error proposes.
  - `live.rs`: what a new head of the chain leads to.
  - `process.rs`: what happens to fetched logs, and the order of dependent events.
  - `laws.rs`: what holds of whole runs.
- `app/` acts: it sends requests, waits, delivers logs and runs tasks, as `src/` asks for it.
- `tests/` runs the decisions on values.
