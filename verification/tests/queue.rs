use app_queue::builder::JobBuilder;
use app_queue::db::{JobRow, TableError, Write};
use app_queue::job::Job;
use app_queue::queue::{AppQueue, Signal};
use app_queue::time::Timestamp;

#[derive(Clone, Debug, PartialEq)]
struct Greeting {
    message: String,
}

impl Job for Greeting {}

fn greeting() -> Greeting {
    Greeting { message: "Hello, world!".to_string() }
}

fn at(secs: i64) -> Timestamp {
    Timestamp { secs, nanos: 0 }
}

fn row(id: i64, name: &str, is_running: bool, retries: i64) -> JobRow {
    JobRow {
        id,
        unique_job_id: name.to_string(),
        run_after: at(10),
        job_data: vec![1],
        priority: 0,
        retries,
        is_running,
    }
}

fn open(rows: Vec<JobRow>) -> AppQueue {
    AppQueue::new(rows).unwrap().0
}

fn is_random_id(id: &str) -> bool {
    let chars: Vec<char> = id.chars().collect();
    chars.len() == 36
        && chars.iter().enumerate().all(|(i, c)| match i {
            8 | 13 | 18 | 23 => *c == '-',
            14 => *c == '4',
            19 => matches!(c, '8' | '9' | 'a' | 'b'),
            _ => matches!(c, '0'..='9' | 'a'..='f'),
        })
}

fn now() -> Timestamp {
    let now = chrono::Utc::now();
    Timestamp { secs: now.timestamp(), nanos: now.timestamp_subsec_nanos() }
}

/// Stores writes the way a database would.
fn store(rows: &mut Vec<JobRow>, writes: &Vec<Write>) {
    for write in writes {
        match write {
            Write::Insert { row } => rows.push(row.clone()),
            Write::MarkRunning { id } => {
                for row in rows.iter_mut().filter(|row| row.id == *id) {
                    row.is_running = true;
                }
            }
            Write::Requeue { id, retries } => {
                for row in rows.iter_mut().filter(|row| row.id == *id) {
                    row.is_running = false;
                    row.retries = *retries;
                }
            }
            Write::Reschedule { id, run_after, retries, job_data } => {
                for row in rows.iter_mut().filter(|row| row.id == *id) {
                    row.is_running = false;
                    row.run_after = *run_after;
                    row.retries = *retries;
                    row.job_data = job_data.clone();
                }
            }
            Write::Delete { id } => rows.retain(|row| row.id != *id),
        }
    }
}

fn contents(rows: &Vec<JobRow>) -> Vec<String> {
    let mut texts: Vec<String> = rows.iter().map(|row| format!("{:?}", row)).collect();
    texts.sort();
    texts
}

#[test]
fn opening_puts_aborted_jobs_back() {
    let (queue, effects) =
        AppQueue::new(vec![row(1, "a", true, 2), row(2, "b", false, 5)]).unwrap();
    let states: Vec<(i64, bool, i64)> =
        queue.rows().iter().map(|row| (row.id, row.is_running, row.retries)).collect();
    assert_eq!(states, vec![(1, false, 3), (2, false, 5)]);
    assert_eq!(effects.writes.len(), 1);
    assert!(matches!(effects.writes[0], Write::Requeue { id: 1, retries: 3 }));
    assert!(effects.signals.is_empty());
}

#[test]
fn opening_refuses_corrupt_rows() {
    let shared = vec![row(1, "a", false, 0), row(2, "a", false, 0)];
    assert_eq!(AppQueue::new(shared).unwrap_err(), TableError::DuplicateRow);
    let exhausted = vec![row(1, "a", true, i64::MAX)];
    assert_eq!(AppQueue::new(exhausted).unwrap_err(), TableError::RetriesExhausted);
}

#[test]
fn opening_twice_changes_nothing_more() {
    let first = open(vec![row(1, "a", true, 2)]);
    let (second, effects) = AppQueue::new(first.rows().clone()).unwrap();
    assert_eq!(contents(first.rows()), contents(second.rows()));
    assert!(effects.writes.is_empty());
}

#[test]
fn an_added_job_is_due_at_once() {
    let mut queue = open(vec![]);
    let before = now();
    let effects = queue.add_unique_job("id".to_string(), vec![4, 2], 1).unwrap();
    let after = now();
    assert_eq!(effects.writes.len(), 1);
    assert_eq!(effects.signals, vec![Signal::NotifyMonitor]);
    let job = &queue.rows()[0];
    assert!(before.is_at_or_before(&job.run_after) && job.run_after.is_at_or_before(&after));
    assert_eq!((job.unique_job_id.as_str(), job.priority), ("id", 0));
    assert_eq!(queue.monitor_job(), vec![Signal::WakeWaitingRunners, Signal::NotifyRunner]);
}

#[test]
fn a_job_that_is_in_the_queue_is_not_added_again() {
    let mut queue = open(vec![]);
    queue.add_unique_job_at("id".to_string(), vec![1], 1, at(5)).unwrap();
    let before = contents(queue.rows());
    let effects = queue.add_unique_job_at("id".to_string(), vec![2], 2, at(6)).unwrap();
    assert!(effects.writes.is_empty());
    assert_eq!(contents(queue.rows()), before);
    queue.acquire_job(&at(5));
    let effects = queue.add_unique_job_at("id".to_string(), vec![2], 2, at(6)).unwrap();
    assert!(effects.writes.is_empty());
    assert_eq!(queue.rows().len(), 1);
}

#[test]
fn a_used_row_identifier_is_refused() {
    let mut queue = open(vec![row(1, "a", false, 0)]);
    let error = queue.add_unique_job_at("b".to_string(), vec![1], 1, at(5)).unwrap_err();
    assert_eq!(error, TableError::RowIdInUse);
    assert_eq!(queue.next_row_id(), Some(2));
}

#[test]
fn jobs_without_an_id_get_a_random_one() {
    let mut queue = open(vec![]);
    queue.add_job(vec![1], 1).unwrap();
    queue.add_job(vec![1], 2).unwrap();
    let ids: Vec<&String> = queue.rows().iter().map(|row| &row.unique_job_id).collect();
    assert!(is_random_id(ids[0]) && is_random_id(ids[1]));
    assert_ne!(ids[0], ids[1]);
}

#[test]
fn a_builder_starts_with_a_random_id_and_the_current_time() {
    let mut queue = open(vec![]);
    let before = now();
    let builder = JobBuilder::new(greeting());
    let after = now();
    assert_eq!(builder.job(), &greeting());
    let effects = builder.schedule(&mut queue, vec![7], 1).unwrap();
    assert_eq!(effects.signals, vec![Signal::NotifyMonitor]);
    let job = &queue.rows()[0];
    assert!(is_random_id(&job.unique_job_id));
    assert!(before.is_at_or_before(&job.run_after) && job.run_after.is_at_or_before(&after));
    assert_eq!((job.priority, job.retries, job.is_running), (0, 0, false));
    assert_eq!(job.job_data, vec![7]);
}

#[test]
fn a_builder_sets_id_time_and_priority() {
    let mut queue = open(vec![]);
    let builder = JobBuilder::new(greeting()).id("daily".to_string()).run_after(at(77)).priority(-4);
    let copy = builder.clone();
    builder.schedule(&mut queue, vec![7], 1).unwrap();
    let job = &queue.rows()[0];
    assert_eq!((job.unique_job_id.as_str(), job.run_after, job.priority), ("daily", at(77), -4));
    assert!(copy.schedule(&mut queue, vec![8], 2).unwrap().writes.is_empty());
    assert_eq!(queue.rows().len(), 1);
}

#[test]
fn a_builder_can_start_from_given_values() {
    let mut queue = open(vec![]);
    let builder = JobBuilder::starting(greeting(), "x".to_string(), at(3));
    builder.schedule(&mut queue, vec![7], 1).unwrap();
    let job = &queue.rows()[0];
    assert_eq!((job.unique_job_id.as_str(), job.run_after, job.priority), ("x", at(3), 0));
}

#[test]
fn a_job_for_the_future_is_run_later() {
    let mut queue = open(vec![]);
    let builder = JobBuilder::starting(greeting(), "x".to_string(), at(3)).run_after(at(100));
    builder.schedule(&mut queue, vec![7], 1).unwrap();
    assert!(queue.acquire_job(&at(99)).0.is_none());
    assert!(queue.monitor_job_at(&at(99)).is_empty());
    assert_eq!(queue.monitor_job_at(&at(100)).len(), 2);
    assert_eq!(queue.acquire_job(&at(100)).0.unwrap().id, 1);
    assert!(queue.monitor_job_at(&at(100)).is_empty());
}

#[test]
fn the_monitor_is_started_once() {
    let mut queue = open(vec![]);
    assert_eq!(queue.run_job_loop(), vec![Signal::SpawnMonitor, Signal::NotifyRunner]);
    assert_eq!(queue.run_job_loop(), vec![Signal::NotifyRunner]);
    queue.reload(vec![row(1, "a", false, 0)]).unwrap();
    assert_eq!(queue.run_job_loop(), vec![Signal::NotifyRunner]);
}

#[test]
fn workers_are_started_by_number() {
    assert!(AppQueue::run_job_workers(0).is_empty());
    assert_eq!(AppQueue::run_job_workers(3), vec![Signal::SpawnWorker; 3]);
    assert_eq!(AppQueue::run_job_workers_default().len(), num_cpus::get());
}

#[test]
fn reloading_takes_the_stored_rows_over() {
    let mut queue = open(vec![row(1, "a", false, 0)]);
    queue.reload(vec![row(2, "b", true, 3)]).unwrap();
    assert_eq!(contents(queue.rows()), contents(&vec![row(2, "b", true, 3)]));
    let shared = vec![row(2, "b", false, 0), row(2, "c", false, 0)];
    assert_eq!(queue.reload(shared).unwrap_err(), TableError::DuplicateRow);
    assert_eq!(contents(queue.rows()), contents(&vec![row(2, "b", true, 3)]));
}

#[test]
fn removing_a_job_tells_the_monitor() {
    let mut queue = open(vec![row(1, "a", false, 0)]);
    let effects = queue.delete_job(1);
    assert!(matches!(effects.writes[0], Write::Delete { id: 1 }));
    assert_eq!(effects.signals, vec![Signal::NotifyMonitor]);
    assert!(queue.rows().is_empty());
}

#[test]
fn putting_a_job_back_tells_the_monitor() {
    let mut queue = open(vec![row(1, "a", false, 0)]);
    let effects = queue.reschedule_job(at(44), 7, vec![6], 1);
    assert_eq!(effects.signals, vec![Signal::NotifyMonitor]);
    assert_eq!((queue.rows()[0].run_after, queue.rows()[0].retries), (at(44), 7));
    let missing = queue.reschedule_job(at(44), 7, vec![6], 2);
    assert!(missing.writes.is_empty());
    assert_eq!(queue.rows().len(), 1);
}

#[test]
fn the_writes_keep_the_stored_rows_up_to_date() {
    let mut stored = vec![row(1, "a", true, 2)];
    let (mut queue, effects) = AppQueue::new(stored.clone()).unwrap();
    store(&mut stored, &effects.writes);
    assert_eq!(contents(&stored), contents(queue.rows()));
    let effects = queue.add_unique_job_at("b".to_string(), vec![2], 2, at(5)).unwrap();
    store(&mut stored, &effects.writes);
    assert_eq!(contents(&stored), contents(queue.rows()));
    let (job, effects) = queue.acquire_job(&at(20));
    assert_eq!(job.unwrap().id, 2);
    store(&mut stored, &effects.writes);
    assert_eq!(contents(&stored), contents(queue.rows()));
    let effects = queue.reschedule_job(at(60), 1, vec![3], 2);
    store(&mut stored, &effects.writes);
    assert_eq!(contents(&stored), contents(queue.rows()));
    let effects = queue.delete_job(1);
    store(&mut stored, &effects.writes);
    assert_eq!(contents(&stored), contents(queue.rows()));
    assert_eq!(contents(open(stored).rows()), contents(queue.rows()));
}
