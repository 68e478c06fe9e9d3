# tachyon-application

The decision logic of a serverless control plane, verified with Verus: what
its ledger may hold, who may run what on which environment, what becomes of
work whose driver is gone, which log lines are kept, and what the metrics page
says.

- `src/domain`: functions, revisions, invocations, attempts, environments,
  leases and log lines, with their state changes.
- `src/repository`: the row invariants (`guard`), the in-memory ledger
  (`memory`), restart reconciliation (`restart`, `reconcile`), slots and
  leases (`slot`, `slots`), asynchronous dispatch (`dispatch`, `outbox`),
  triggers, object references, configuration publication, and under `sqlite`
  the columns and plans of the SQLite store.
- `src/logs`: the bounded log queue, the rows a batch writes, reading and
  retention.
- `src/metrics`: counters, histograms, label caps and the text exposition.
- `src/table`, `src/listing`, `src/text`, `src/time`: ordered tables, sorted
  listings, texts and instants that the rest is stated over.
- `app`: locks, threads, files, SQL and JSON around the library.
- `tests`: scenarios on concrete values.

Contracts speak of rows as maps from keys to values. A public `law_*` proof
function states what several operations promise together. What the library
takes on trust is in `src/time.rs` (dates through `chrono`, and durations) and
`src/repository/sqlite/outputs.rs` (base64).
