//! The deterministic core of an in-app persistent job queue.
//!
//! A queue holds jobs, each with a time before which it is not started, a priority and an ID
//! under which it is in the queue at most once. Workers take due jobs in order of priority, and
//! then in order of how long they have been due. A job that succeeds, or fails with a fatal error,
//! is removed; any other job that fails is put back and tried again later. Jobs that were being
//! run when the application stopped are put back when it starts again.
//!
//! The library makes these decisions on plain values. It does not run jobs and does not touch a
//! database: [`queue::AppQueue`] returns with each operation the writes that bring the stored rows
//! up to date and the signals for the tasks around it, and [`runner::RunJob`] says what a worker
//! does next.

pub mod builder;
pub mod db;
pub mod ids;
pub mod job;
pub mod laws;
pub mod model;
pub mod promises;
pub mod queue;
pub mod runner;
pub mod time;
