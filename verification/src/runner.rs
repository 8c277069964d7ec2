//! The decisions of a worker: how one job is run, and when the next one is looked for.

use vstd::prelude::*;

use crate::db::AcquiredJob;
use crate::job::{judge_failure, judged, Failure, Job};
use crate::time::Timestamp;

verus! {

/// How far a worker has come with one job.
#[derive(Clone, Copy, Debug, PartialEq, Eq, Structural)]
pub enum RunState {
    /// Nothing was done yet.
    Start,
    /// A job is being acquired.
    Acquiring,
    /// The job in row `id` is being decoded.
    Decoding { id: i64, retries: i64 },
    /// The job in row `id` is being run.
    Running { id: i64, retries: i64 },
    /// The job in row `id` failed, and is being encoded for the next try, which `retries` counts
    /// already.
    Encoding { id: i64, run_after: Timestamp, retries: i64 },
    /// The outcome is being stored.
    Storing,
    /// The worker is done.
    Finished,
}

/// What happened to a worker.
#[derive(Debug)]
pub enum RunEvent {
    /// The worker was told to run a job.
    Begin,
    /// A job was acquired, or there is none to run.
    Acquired(Option<AcquiredJob>),
    /// The job was decoded.
    Decoded,
    /// The job ran without an error.
    RunSucceeded,
    /// The job failed.
    RunFailed(Failure),
    /// The job was encoded.
    Encoded(Vec<u8>),
    /// The outcome was stored.
    Stored,
    /// Acquiring, decoding, encoding or storing failed.
    StepFailed,
}

/// What a worker does next.
#[derive(Debug)]
pub enum RunAction {
    /// Acquire a job.
    Acquire,
    /// Decode the job.
    Decode(Vec<u8>),
    /// Run the job.
    Run,
    /// Encode the job as it is after the failed run.
    Encode,
    /// Remove the job in row `id` from the queue.
    Delete { id: i64 },
    /// Put the job in row `id` back into the queue, with this retry count.
    Reschedule { id: i64, run_after: Timestamp, retries: i64, job_data: Vec<u8> },
    /// Return whether there was a job to run.
    Return(bool),
    /// Return the error of the step that failed.
    Fail,
}

/// Whether `event` can happen to a worker in state `state`.
pub open spec fn can_happen(state: RunState, event: RunEvent) -> bool {
    match state {
        RunState::Start => event is Begin,
        RunState::Acquiring => event is Acquired || event is StepFailed,
        RunState::Decoding { .. } => event is Decoded || event is StepFailed,
        RunState::Running { .. } => event is RunSucceeded || event is RunFailed,
        RunState::Encoding { .. } => event is Encoded || event is StepFailed,
        RunState::Storing => event is Stored || event is StepFailed,
        RunState::Finished => false,
    }
}

/// The state of a worker in state `state` after `event`, and what it does next.
pub open spec fn run_step(state: RunState, event: RunEvent) -> (RunState, RunAction) {
    match (state, event) {
        (RunState::Start, _) => (RunState::Acquiring, RunAction::Acquire),
        (RunState::Acquiring, RunEvent::Acquired(Some(job))) => (
            RunState::Decoding { id: job.id, retries: job.retries },
            RunAction::Decode(job.job_data),
        ),
        (RunState::Acquiring, RunEvent::Acquired(None)) => (
            RunState::Finished,
            RunAction::Return(false),
        ),
        (RunState::Decoding { id, retries }, RunEvent::Decoded) => (
            RunState::Running { id, retries },
            RunAction::Run,
        ),
        (RunState::Running { id, .. }, RunEvent::RunSucceeded) => (
            RunState::Storing,
            RunAction::Delete { id },
        ),
        (RunState::Running { id, .. }, RunEvent::RunFailed(Failure::Fatal)) => (
            RunState::Storing,
            RunAction::Delete { id },
        ),
        (RunState::Running { id, retries }, RunEvent::RunFailed(Failure::Retry(at))) => if retries
            < i64::MAX {
            (
                RunState::Encoding { id, run_after: at, retries: (retries + 1) as i64 },
                RunAction::Encode,
            )
        } else {
            (RunState::Finished, RunAction::Fail)
        },
        (RunState::Encoding { id, run_after, retries }, RunEvent::Encoded(job_data)) => (
            RunState::Storing,
            RunAction::Reschedule { id, run_after, retries, job_data },
        ),
        (RunState::Storing, RunEvent::Stored) => (RunState::Finished, RunAction::Return(true)),
        _ => (RunState::Finished, RunAction::Fail),
    }
}

/// A worker that runs a single job.
///
/// It returns `true` once a job was acquired and its outcome stored, and `false` if there was no
/// job to run. A step that fails ends the work with its error. What was acquired before stays
/// marked as running then.
#[derive(Debug)]
pub struct RunJob {
    state: RunState,
}

impl RunJob {
    /// How far the worker has come.
    pub closed spec fn at(&self) -> RunState {
        self.state
    }

    /// A worker that has not done anything yet.
    pub fn new() -> (worker: RunJob)
        ensures
            worker.at() == RunState::Start,
    {
        RunJob { state: RunState::Start }
    }

    /// How far the worker has come.
    pub fn state(&self) -> (state: RunState)
        ensures
            state == self.at(),
    {
        self.state
    }

    /// What the worker is told when the job that it runs failed with `error`: the job decides what
    /// becomes of it, from the retry count with which it was acquired.
    pub fn run_failed<J: Job>(&self, job: &J, error: &anyhow::Error) -> (event: RunEvent)
        requires
            self.at() is Running,
            0 <= self.at()->Running_retries,
        ensures
            can_happen(self.at(), event),
            event matches RunEvent::RunFailed(failure) && judged(
                job,
                error,
                self.at()->Running_retries,
                failure,
            ),
    {
        let retries = match self.state {
            RunState::Running { retries, .. } => retries,
            _ => 0,
        };
        RunEvent::RunFailed(judge_failure(job, error, retries))
    }

    /// Tells the worker what happened, and returns what it does next.
    pub fn step(&mut self, event: RunEvent) -> (action: RunAction)
        requires
            can_happen(old(self).at(), event),
        ensures
            (final(self).at(), action) == run_step(old(self).at(), event),
    {
        let (state, action) = match (self.state, event) {
            (RunState::Start, _) => (RunState::Acquiring, RunAction::Acquire),
            (RunState::Acquiring, RunEvent::Acquired(Some(job))) => (
                RunState::Decoding { id: job.id, retries: job.retries },
                RunAction::Decode(job.job_data),
            ),
            (RunState::Acquiring, RunEvent::Acquired(None)) => (
                RunState::Finished,
                RunAction::Return(false),
            ),
            (RunState::Decoding { id, retries }, RunEvent::Decoded) => (
                RunState::Running { id, retries },
                RunAction::Run,
            ),
            (RunState::Running { id, .. }, RunEvent::RunSucceeded) => (
                RunState::Storing,
                RunAction::Delete { id },
            ),
            (RunState::Running { id, .. }, RunEvent::RunFailed(Failure::Fatal)) => (
                RunState::Storing,
                RunAction::Delete { id },
            ),
            (RunState::Running { id, retries }, RunEvent::RunFailed(Failure::Retry(at))) => {
                if retries < i64::MAX {
                    (
                        RunState::Encoding { id, run_after: at, retries: retries + 1 },
                        RunAction::Encode,
                    )
                } else {
                    (RunState::Finished, RunAction::Fail)
                }
            },
            (RunState::Encoding { id, run_after, retries }, RunEvent::Encoded(job_data)) => (
                RunState::Storing,
                RunAction::Reschedule { id, run_after, retries, job_data },
            ),
            (RunState::Storing, RunEvent::Stored) => (
                RunState::Finished,
                RunAction::Return(true),
            ),
            _ => (RunState::Finished, RunAction::Fail),
        };
        self.state = state;
        action
    }
}

/// What happened to a task that serves as a worker.
#[derive(Clone, Copy, Debug, PartialEq, Eq, Structural)]
pub enum LoopEvent {
    /// The task was started.
    Started,
    /// A job was looked for. It was run if there was one.
    JobRun(bool),
    /// The task was notified while it waited.
    Notified,
    /// Running a job ended with an error.
    RunError,
}

/// What a task that serves as a worker does next.
#[derive(Clone, Copy, Debug, PartialEq, Eq, Structural)]
pub enum LoopAction {
    /// Run a job.
    RunJob,
    /// Wait for a notification.
    Wait,
    /// Return the error.
    Stop,
}

/// What a task that serves as a worker does after `event`: it runs jobs as long as there are any,
/// then waits until it is notified. It never returns, unless an error occurs.
pub open spec fn loop_step(event: LoopEvent) -> LoopAction {
    match event {
        LoopEvent::RunError => LoopAction::Stop,
        LoopEvent::JobRun(false) => LoopAction::Wait,
        _ => LoopAction::RunJob,
    }
}

/// What a task that serves as a worker does after `event`.
pub fn next_loop_action(event: LoopEvent) -> (action: LoopAction)
    ensures
        action == loop_step(event),
{
    match event {
        LoopEvent::Started => LoopAction::RunJob,
        LoopEvent::JobRun(ran) => if ran {
            LoopAction::RunJob
        } else {
            LoopAction::Wait
        },
        LoopEvent::Notified => LoopAction::RunJob,
        LoopEvent::RunError => LoopAction::Stop,
    }
}

/// The longest time, in seconds, between two looks of the monitor at the queue.
pub const MONITOR_INTERVAL_SECS: u64 = 10;

/// What happened to the monitor.
#[derive(Clone, Copy, Debug, PartialEq, Eq, Structural)]
pub enum MonitorEvent {
    /// The monitor was started.
    Started,
    /// The monitor has looked at the queue.
    Looked,
    /// The monitor was notified while it waited.
    Notified,
    /// The monitor has waited as long as it was to.
    TimedOut,
    /// Looking at the queue ended with an error.
    LookError,
}

/// What the monitor does next.
#[derive(Clone, Copy, Debug, PartialEq, Eq, Structural)]
pub enum MonitorAction {
    /// Look at the queue, and wake up the workers if some job is due.
    Look,
    /// Wait for a notification, but no longer than this many seconds.
    Wait { seconds: u64 },
    /// Return the error.
    Stop,
}

/// What the monitor does after `event`: it looks at the queue whenever it starts or its wait is
/// over, and waits between two looks. It never returns, unless an error occurs.
pub open spec fn monitor_step(event: MonitorEvent) -> MonitorAction {
    match event {
        MonitorEvent::LookError => MonitorAction::Stop,
        MonitorEvent::Looked => MonitorAction::Wait { seconds: MONITOR_INTERVAL_SECS },
        _ => MonitorAction::Look,
    }
}

/// What the monitor does after `event`.
pub fn next_monitor_action(event: MonitorEvent) -> (action: MonitorAction)
    ensures
        action == monitor_step(event),
{
    match event {
        MonitorEvent::Started => MonitorAction::Look,
        MonitorEvent::Looked => MonitorAction::Wait { seconds: MONITOR_INTERVAL_SECS },
        MonitorEvent::Notified => MonitorAction::Look,
        MonitorEvent::TimedOut => MonitorAction::Look,
        MonitorEvent::LookError => MonitorAction::Stop,
    }
}

} // verus!
