# coil

A background job queue for Postgres. Jobs are stored in the table
`_background_tasks`; a runner hands them to a thread pool, each worker locks
the next job, runs it, and deletes it on success or counts a retry on failure.

- `src/` is the verified library (Verus): the runner's scheduling state
  machine and the wait for finished jobs (`runner.rs`), the job registry
  (`registry.rs`), the batch insert statement (`db.rs`), and the error and
  record types. Its laws are public proof functions beside the code.
- `app/` is the rest, in plain Rust: the database queries, the thread pool,
  the channels, the `Job` trait and the runner that drives the verified
  decisions.
- `tests/` exercises the library on concrete scenarios.
