# agentstategraph_substrate

The plan/task, reminder and taint layers of an agent state graph, written
in Verus: every function in `src/` carries a contract that Verus proves.

- `src/tasks/` — plans and tasks under named refs: the task state machine,
  blockers, subtasks, assignment, next-task selection, explicit plan
  closing, proof verification reports; every write is logged as a plan
  change by the store's agent with a description (`history.rs`).
  `laws.rs` states what holds across
  operations (ids increase, closing is idempotent, a started task had its
  blockers done, ...).
- `src/reminders/` — reminders with schedules, soft references, an
  execution log, and the manager that promotes, gates and reschedules
  them; `schedule.rs` holds the calendar arithmetic of daily and weekly
  schedules.
- `src/taint/` — taints, quarantines and watches on paths, and the access
  check that decides whether a write may proceed.
- `src/storage/` — the storage error type, the taint storage interface
  with an in-memory backend that keeps at most one active taint per
  path, name and kind, the encodings and listing queries of the SQL
  backends, and how their reminder and taint rows decode (`columns.rs`:
  RFC 3339 dates, JSON columns, the first failing column reported).
- `app/` — serde copies of the records, error texts, and the
  `chrono`/`f64` edges (clock values, confidence thresholds).

Trusted items are few and marked `#[verifier::external_body]`: the wall
clock and RFC 3339 parsing (`chrono`), fresh reminder ids (`uuid`), the
blocker-id pattern (`regex`) and `String::push`.
