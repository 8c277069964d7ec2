# App-Queue

App-queue is a simple persistent in-app queue for Rust. It is designed to be dropped into
monolithic applications, and provides automatic queueing and retrying for asynchronous tasks.

By default, if a job returns an error, it is retried indefinitely with exponential backoff (600s
max delay). This can be overridden on a per-job-type basis.

## Layout

- `src/` is the library that makes all decisions, verified with Verus. It is
  deterministic but for the clock, random IDs and the number of CPUs, and each function that asks
  for one of those has a twin that takes it as an argument.
  - `model.rs` says what a queue is and what each operation makes of it.
  - `db.rs` is the table of jobs, `queue.rs` the queue with its writes and signals.
  - `runner.rs` holds the decisions of a worker, `job.rs` those of a job.
  - `builder.rs` schedules jobs, `time.rs` and `ids.rs` hold time and random IDs.
  - `laws.rs` states what holds over several operations and any number of workers.
- `app/` runs the jobs on tokio and stores the queue with sqlx. Every operation loads the rows,
  lets the library decide, and stores the resulting writes in one transaction.
- `tests/` holds the tests of the library.

## Caveats

Incompatible schema changes (renaming or removal of job structs), as well as incompatible changes
in the structure of a job, cause jobs to get stuck in the queue until the next start.
