# cellex_actor_core_rs

The ready-queue scheduling core of the cellex actor runtime, written in Verus.

- `src/` is the verified library: mailbox indices, delays, invocation outcomes,
  the ready-queue coordinators (on std collections and on
  `crossbeam_queue::SegQueue` / `dashmap::DashSet`) with their retries after
  failures, the bookkeeping of
  suspended actors, the ready queue of actor indices, the scheduler's
  decision core with its escalation buffer, the context that joins the core
  and the ready queue, and the choice of actor-system settings. Each operation is
  specified over a mathematical model (`ReadyQueueModel`, `SuspendModel`,
  `ReadyStateModel`, `CoreModel`); laws about them are proof functions in
  `ready_model.rs`, `suspend_laws.rs`, `core_laws.rs`,
  `ready_queue_state.rs`, `coordinator_replay.rs` and `scheduler_replay.rs`
  (the last two state how sequences of calls are answered).
- `app/` holds the runtime glue: asynchronous waiting on coordinator
  signals, the shutdown token, dispatching, the ready-queue worker loop,
  the ready-event hooks, and the trait through which the host runtime runs
  actors for the core.
- `tests/` exercises the library.
