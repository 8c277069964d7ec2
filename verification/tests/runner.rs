use app_queue::db::{AcquiredJob, JobRow};
use app_queue::job::{judge_failure, Failure, Job};
use app_queue::queue::{AppQueue, Signal};
use app_queue::runner::{
    next_loop_action, next_monitor_action, LoopAction, LoopEvent, MonitorAction, MonitorEvent,
    RunAction, RunEvent, RunJob, RunState, MONITOR_INTERVAL_SECS,
};
use app_queue::time::Timestamp;

struct Plain;

impl Job for Plain {}

fn at(secs: i64) -> Timestamp {
    Timestamp { secs, nanos: 0 }
}

fn row(id: i64, name: &str, retries: i64) -> JobRow {
    JobRow {
        id,
        unique_job_id: name.to_string(),
        run_after: at(10),
        job_data: vec![id as u8],
        priority: 0,
        retries,
        is_running: false,
    }
}

fn open(rows: Vec<JobRow>) -> AppQueue {
    AppQueue::new(rows).unwrap().0
}

/// How the outside steps of a run come out.
struct Outcome {
    decodes: bool,
    ran: Option<Failure>,
    encodes: Option<Vec<u8>>,
}

/// Runs one job at time `now`: what the worker returned, and what was signalled.
fn run(queue: &mut AppQueue, now: Timestamp, outcome: &Outcome) -> (Option<bool>, Vec<Signal>) {
    let mut worker = RunJob::new();
    let mut signals = Vec::new();
    let mut event = RunEvent::Begin;
    loop {
        event = match worker.step(event) {
            RunAction::Decode(_) if outcome.decodes => RunEvent::Decoded,
            RunAction::Decode(_) => RunEvent::StepFailed,
            RunAction::Run => match outcome.ran {
                None => RunEvent::RunSucceeded,
                Some(failure) => RunEvent::RunFailed(failure),
            },
            RunAction::Encode => match &outcome.encodes {
                Some(data) => RunEvent::Encoded(data.clone()),
                None => RunEvent::StepFailed,
            },
            RunAction::Return(ran) => return (Some(ran), signals),
            RunAction::Fail => return (None, signals),
            action => {
                let (event, effects) = queue.run_job_at(action, &now);
                signals.extend(effects.signals);
                event
            }
        };
    }
}

const SUCCESS: Outcome = Outcome { decodes: true, ran: None, encodes: None };

#[test]
fn without_a_due_job_nothing_is_run() {
    let mut queue = open(vec![row(1, "a", 0)]);
    assert_eq!(run(&mut queue, at(9), &SUCCESS), (Some(false), vec![]));
    assert_eq!(queue.rows().len(), 1);
}

#[test]
fn a_job_that_succeeds_is_removed() {
    let mut queue = open(vec![row(1, "a", 0), row(2, "b", 0)]);
    assert_eq!(run(&mut queue, at(10), &SUCCESS), (Some(true), vec![Signal::NotifyMonitor]));
    assert_eq!(queue.rows().len(), 1);
    assert_eq!(queue.rows()[0].id, 2);
    assert_eq!(run(&mut queue, at(10), &SUCCESS).0, Some(true));
    assert_eq!(run(&mut queue, at(10), &SUCCESS).0, Some(false));
}

#[test]
fn a_job_that_fails_fatally_is_removed() {
    let mut queue = open(vec![row(1, "a", 0)]);
    let outcome = Outcome { decodes: true, ran: Some(Failure::Fatal), encodes: None };
    assert_eq!(run(&mut queue, at(10), &outcome), (Some(true), vec![Signal::NotifyMonitor]));
    assert!(queue.rows().is_empty());
}

#[test]
fn a_job_that_fails_is_put_back() {
    let mut queue = open(vec![row(1, "a", 3)]);
    let outcome = Outcome {
        decodes: true,
        ran: Some(Failure::Retry(at(18))),
        encodes: Some(vec![8, 8]),
    };
    assert_eq!(run(&mut queue, at(10), &outcome), (Some(true), vec![Signal::NotifyMonitor]));
    let job = &queue.rows()[0];
    assert_eq!((job.is_running, job.retries, job.run_after), (false, 4, at(18)));
    assert_eq!(job.job_data, vec![8, 8]);
    assert_eq!(run(&mut queue, at(17), &SUCCESS).0, Some(false));
    assert_eq!(run(&mut queue, at(18), &SUCCESS).0, Some(true));
    assert!(queue.rows().is_empty());
}

#[test]
fn a_job_is_retried_indefinitely() {
    let mut queue = open(vec![row(1, "a", 0)]);
    let mut now = at(10);
    for retries in 0..30 {
        let later = at(now.secs + 600);
        let outcome = Outcome {
            decodes: true,
            ran: Some(Failure::Retry(later)),
            encodes: Some(vec![1]),
        };
        assert_eq!(run(&mut queue, now, &outcome).0, Some(true));
        assert_eq!(queue.rows()[0].retries, retries + 1);
        now = later;
    }
}

#[test]
fn a_job_that_cannot_be_decoded_gets_stuck_until_a_restart() {
    let mut queue = open(vec![row(1, "a", 0)]);
    let outcome = Outcome { decodes: false, ran: None, encodes: None };
    assert_eq!(run(&mut queue, at(10), &outcome), (None, vec![]));
    assert!(queue.rows()[0].is_running);
    assert_eq!(run(&mut queue, at(100), &SUCCESS).0, Some(false));
    let restarted = open(queue.rows().clone());
    assert!(!restarted.rows()[0].is_running);
    assert_eq!(restarted.rows()[0].retries, 1);
}

#[test]
fn a_job_that_cannot_be_encoded_gets_stuck() {
    let mut queue = open(vec![row(1, "a", 0)]);
    let outcome = Outcome { decodes: true, ran: Some(Failure::Retry(at(20))), encodes: None };
    assert_eq!(run(&mut queue, at(10), &outcome), (None, vec![]));
    assert!(queue.rows()[0].is_running);
}

#[test]
fn a_job_without_a_retry_time_gets_stuck() {
    let mut queue = open(vec![row(1, "a", 0)]);
    let outcome = Outcome { decodes: true, ran: Some(Failure::NoRetryTime), encodes: None };
    assert_eq!(run(&mut queue, at(10), &outcome), (None, vec![]));
    assert!(queue.rows()[0].is_running);
}

#[test]
fn an_exhausted_retry_count_is_an_error() {
    let mut queue = open(vec![row(1, "a", i64::MAX)]);
    let outcome = Outcome {
        decodes: true,
        ran: Some(Failure::Retry(at(20))),
        encodes: Some(vec![1]),
    };
    assert_eq!(run(&mut queue, at(10), &outcome), (None, vec![]));
    assert!(queue.rows()[0].is_running);
    assert_eq!(queue.rows()[0].retries, i64::MAX);
}

#[test]
fn two_workers_never_hold_the_same_job() {
    let mut queue = open(vec![row(1, "a", 0), row(2, "b", 0)]);
    let first = queue.acquire_job(&at(10)).0.unwrap();
    let second = queue.acquire_job(&at(10)).0.unwrap();
    assert_eq!((first.id, second.id), (1, 2));
    assert!(queue.acquire_job(&at(10)).0.is_none());
}

#[test]
fn a_worker_takes_its_steps_in_order() {
    let mut worker = RunJob::new();
    assert_eq!(worker.state(), RunState::Start);
    assert!(matches!(worker.step(RunEvent::Begin), RunAction::Acquire));
    let job = AcquiredJob { id: 5, job_data: vec![1, 2, 3], retries: 2 };
    match worker.step(RunEvent::Acquired(Some(job))) {
        RunAction::Decode(data) => assert_eq!(data, vec![1, 2, 3]),
        _ => panic!("expected to decode"),
    }
    assert!(matches!(worker.step(RunEvent::Decoded), RunAction::Run));
    assert_eq!(worker.state(), RunState::Running { id: 5, retries: 2 });
    let failure = RunEvent::RunFailed(Failure::Retry(at(9)));
    assert!(matches!(worker.step(failure), RunAction::Encode));
    match worker.step(RunEvent::Encoded(vec![4])) {
        RunAction::Reschedule { id, run_after, retries, job_data } => {
            assert_eq!((id, run_after, retries, job_data), (5, at(9), 3, vec![4]));
        }
        _ => panic!("expected to reschedule"),
    }
    assert!(matches!(worker.step(RunEvent::Stored), RunAction::Return(true)));
    assert_eq!(worker.state(), RunState::Finished);
}

#[test]
fn a_failure_to_acquire_or_store_is_reported() {
    let mut worker = RunJob::new();
    worker.step(RunEvent::Begin);
    assert!(matches!(worker.step(RunEvent::StepFailed), RunAction::Fail));
    let mut worker = RunJob::new();
    worker.step(RunEvent::Begin);
    let job = AcquiredJob { id: 5, job_data: vec![], retries: 0 };
    worker.step(RunEvent::Acquired(Some(job)));
    worker.step(RunEvent::Decoded);
    worker.step(RunEvent::RunSucceeded);
    assert_eq!(worker.state(), RunState::Storing);
    assert!(matches!(worker.step(RunEvent::StepFailed), RunAction::Fail));
}

#[test]
fn the_queue_reads_the_clock_for_a_worker() {
    let long_ago = row(1, "a", 0);
    let mut far_away = row(2, "b", 0);
    far_away.run_after = at(chrono::Utc::now().timestamp() + 1_000);
    far_away.priority = 5;
    let mut queue = open(vec![far_away, long_ago]);
    match queue.run_job(RunAction::Acquire).0 {
        RunEvent::Acquired(Some(job)) => assert_eq!(job.id, 1),
        _ => panic!("expected a job"),
    }
    match queue.run_job(RunAction::Acquire).0 {
        RunEvent::Acquired(job) => assert!(job.is_none()),
        _ => panic!("expected no job"),
    }
}

#[test]
fn a_plain_failure_leads_back_into_the_queue() {
    let mut queue = open(vec![row(1, "a", 2)]);
    let before = chrono::Utc::now().timestamp();
    let failure = judge_failure(&Plain, &anyhow::Error::msg("busy"), 2);
    let outcome = Outcome { decodes: true, ran: Some(failure), encodes: Some(vec![1]) };
    run(&mut queue, at(10), &outcome);
    assert!(queue.rows()[0].run_after.secs >= before + 4);
    assert_eq!(queue.rows()[0].retries, 3);
}

#[test]
fn a_worker_task_runs_jobs_and_then_waits() {
    assert_eq!(next_loop_action(LoopEvent::Started), LoopAction::RunJob);
    assert_eq!(next_loop_action(LoopEvent::JobRun(true)), LoopAction::RunJob);
    assert_eq!(next_loop_action(LoopEvent::JobRun(false)), LoopAction::Wait);
    assert_eq!(next_loop_action(LoopEvent::Notified), LoopAction::RunJob);
    assert_eq!(next_loop_action(LoopEvent::RunError), LoopAction::Stop);
}

struct Counted;

impl Job for Counted {
    fn is_fatal_error(&self, error: &anyhow::Error) -> bool {
        error.to_string() == "fatal"
    }

    fn get_next_retry(&self, retries: i64) -> Option<Timestamp> {
        Some(at(1_000 + retries))
    }
}

fn running(id: i64, retries: i64) -> RunJob {
    let mut worker = RunJob::new();
    worker.step(RunEvent::Begin);
    worker.step(RunEvent::Acquired(Some(AcquiredJob { id, job_data: vec![], retries })));
    worker.step(RunEvent::Decoded);
    worker
}

#[test]
fn a_failed_job_is_asked_with_the_count_it_was_acquired_with() {
    let worker = running(1, 4);
    match worker.run_failed(&Counted, &anyhow::Error::msg("busy")) {
        RunEvent::RunFailed(failure) => assert_eq!(failure, Failure::Retry(at(1_004))),
        _ => panic!("expected a failure"),
    }
    match worker.run_failed(&Counted, &anyhow::Error::msg("fatal")) {
        RunEvent::RunFailed(failure) => assert_eq!(failure, Failure::Fatal),
        _ => panic!("expected a failure"),
    }
}

#[test]
fn the_count_at_its_limit_cannot_be_retried() {
    let mut worker = running(1, i64::MAX);
    let event = RunEvent::RunFailed(Failure::Retry(at(9)));
    assert!(matches!(worker.step(event), RunAction::Fail));
}

#[test]
fn a_worker_stores_its_own_count_after_another_opening() {
    let mut queue = open(vec![row(1, "a", 3)]);
    let job = queue.acquire_job(&at(10)).0.unwrap();
    assert_eq!(job.retries, 3);
    let mut queue = open(queue.rows().clone());
    assert_eq!(queue.rows()[0].retries, 4);
    let mut worker = RunJob::new();
    worker.step(RunEvent::Begin);
    worker.step(RunEvent::Acquired(Some(job)));
    worker.step(RunEvent::Decoded);
    worker.step(RunEvent::RunFailed(Failure::Retry(at(20))));
    let action = worker.step(RunEvent::Encoded(vec![2]));
    queue.run_job_at(action, &at(11));
    assert_eq!(queue.rows()[0].retries, 4);
    assert_eq!(queue.rows()[0].run_after, at(20));
}

#[test]
fn the_monitor_looks_at_least_every_ten_seconds() {
    assert_eq!(MONITOR_INTERVAL_SECS, 10);
    assert_eq!(next_monitor_action(MonitorEvent::Started), MonitorAction::Look);
    assert_eq!(next_monitor_action(MonitorEvent::Looked), MonitorAction::Wait { seconds: 10 });
    assert_eq!(next_monitor_action(MonitorEvent::Notified), MonitorAction::Look);
    assert_eq!(next_monitor_action(MonitorEvent::TimedOut), MonitorAction::Look);
    assert_eq!(next_monitor_action(MonitorEvent::LookError), MonitorAction::Stop);
}
