use app_queue::db::{JobRow, JobTable, TableError, Write};
use app_queue::time::Timestamp;

fn at(secs: i64) -> Timestamp {
    Timestamp { secs, nanos: 0 }
}

fn row(id: i64, name: &str, run_after: i64, priority: i64) -> JobRow {
    JobRow {
        id,
        unique_job_id: name.to_string(),
        run_after: at(run_after),
        job_data: vec![id as u8],
        priority,
        retries: 0,
        is_running: false,
    }
}

fn held(mut row: JobRow, retries: i64) -> JobRow {
    row.is_running = true;
    row.retries = retries;
    row
}

fn table(rows: Vec<JobRow>) -> JobTable {
    JobTable::from_rows(rows).unwrap()
}

fn find(table: &JobTable, id: i64) -> &JobRow {
    table.rows().iter().find(|row| row.id == id).unwrap()
}

fn drain(table: &mut JobTable, now: i64) -> Vec<i64> {
    let mut ids = Vec::new();
    while let Some(job) = table.acquire_job(&at(now)) {
        ids.push(job.id);
    }
    ids
}

#[test]
fn rows_with_a_shared_row_identifier_are_refused() {
    let rows = vec![row(1, "a", 0, 0), row(2, "b", 0, 0), row(1, "c", 0, 0)];
    assert_eq!(JobTable::from_rows(rows).unwrap_err(), TableError::DuplicateRow);
}

#[test]
fn rows_with_a_shared_unique_id_are_refused() {
    let rows = vec![row(1, "a", 0, 0), row(2, "a", 0, 0)];
    assert_eq!(JobTable::from_rows(rows).unwrap_err(), TableError::DuplicateRow);
}

#[test]
fn the_highest_priority_goes_first() {
    let mut table = table(vec![row(1, "a", 5, 0), row(2, "b", 9, 7), row(3, "c", 1, -2)]);
    assert_eq!(drain(&mut table, 10), vec![2, 1, 3]);
}

#[test]
fn equal_priorities_go_by_how_long_they_are_due() {
    let mut table = table(vec![row(1, "a", 5, 1), row(2, "b", 3, 1), row(3, "c", 4, 1)]);
    assert_eq!(drain(&mut table, 10), vec![2, 3, 1]);
}

#[test]
fn ties_go_by_row_identifier() {
    let mut table = table(vec![row(8, "a", 5, 1), row(2, "b", 5, 1), row(4, "c", 5, 1)]);
    assert_eq!(drain(&mut table, 10), vec![2, 4, 8]);
}

#[test]
fn a_job_is_not_handed_out_before_its_time() {
    let mut table = table(vec![row(1, "a", 10, 5), row(2, "b", 20, 9)]);
    assert!(table.acquire_job(&at(9)).is_none());
    assert!(!table.is_task_pending(&at(9)));
    assert!(table.is_task_pending(&at(10)));
    assert_eq!(drain(&mut table, 10), vec![1]);
    assert_eq!(drain(&mut table, 20), vec![2]);
}

#[test]
fn a_job_is_handed_out_once_with_its_contents() {
    let mut table = table(vec![row(7, "a", 0, 0)]);
    let job = table.acquire_job(&at(0)).unwrap();
    assert_eq!((job.id, job.job_data, job.retries), (7, vec![7], 0));
    assert!(find(&table, 7).is_running);
    assert!(table.acquire_job(&at(100)).is_none());
    assert!(!table.is_task_pending(&at(100)));
}

#[test]
fn aborting_puts_running_jobs_back() {
    let mut table = table(vec![held(row(1, "a", 3, 2), 4), row(2, "b", 5, 0)]);
    let writes = table.abort_jobs().unwrap();
    assert_eq!(writes.len(), 1);
    assert!(matches!(writes[0], Write::Requeue { id: 1, retries: 5 }));
    let first = find(&table, 1);
    assert_eq!((first.is_running, first.retries, first.run_after), (false, 5, at(3)));
    let second = find(&table, 2);
    assert_eq!((second.is_running, second.retries), (false, 0));
}

#[test]
fn aborting_changes_nothing_if_a_retry_count_is_exhausted() {
    let rows = vec![held(row(1, "a", 0, 0), 1), held(row(2, "b", 0, 0), i64::MAX)];
    let mut table = table(rows);
    assert_eq!(table.abort_jobs().unwrap_err(), TableError::RetriesExhausted);
    assert!(find(&table, 1).is_running);
    assert_eq!(find(&table, 1).retries, 1);
    assert_eq!(find(&table, 2).retries, i64::MAX);
}

#[test]
fn an_idle_job_with_an_exhausted_count_does_not_stop_an_abort() {
    let mut idle = row(1, "a", 0, 0);
    idle.retries = i64::MAX;
    let mut table = table(vec![idle]);
    assert!(table.abort_jobs().unwrap().is_empty());
}

#[test]
fn deleting_removes_one_row() {
    let mut table = table(vec![row(1, "a", 0, 0), row(2, "b", 0, 0), row(3, "c", 0, 0)]);
    table.delete_job(2);
    let ids: Vec<i64> = table.rows().iter().map(|row| row.id).collect();
    assert_eq!(ids, vec![1, 3]);
    table.delete_job(2);
    assert_eq!(table.rows().len(), 2);
}

#[test]
fn rescheduling_puts_a_job_back() {
    let mut table = table(vec![held(row(1, "a", 0, 3), 2), row(2, "b", 0, 0)]);
    let written = table.reschedule_job(at(50), vec![9, 9], 1).unwrap().unwrap();
    match written {
        Write::Reschedule { id, run_after, retries, job_data } => {
            assert_eq!((id, run_after, retries, job_data), (1, at(50), 3, vec![9, 9]));
        }
        _ => panic!("expected a reschedule"),
    }
    let job = find(&table, 1);
    assert_eq!((job.is_running, job.retries, job.run_after), (false, 3, at(50)));
    assert_eq!((job.job_data.clone(), job.priority), (vec![9, 9], 3));
    assert_eq!(find(&table, 2).retries, 0);
}

#[test]
fn rescheduling_counts_from_the_row_and_retrying_from_the_given_count() {
    let mut table = table(vec![held(row(1, "a", 0, 0), 4), held(row(2, "b", 0, 0), 4)]);
    table.reschedule_job(at(50), vec![9], 1).unwrap();
    assert_eq!(find(&table, 1).retries, 5);
    match table.retry_job(at(50), 3, vec![9], 2).unwrap() {
        Write::Reschedule { id, run_after, retries, job_data } => {
            assert_eq!((id, run_after, retries, job_data), (2, at(50), 3, vec![9]));
        }
        _ => panic!("expected a reschedule"),
    }
    let job = find(&table, 2);
    assert_eq!((job.is_running, job.retries, job.run_after), (false, 3, at(50)));
    assert!(table.retry_job(at(50), 3, vec![9], 7).is_none());
    assert_eq!(table.rows().len(), 2);
}

#[test]
fn rescheduling_a_missing_job_does_nothing() {
    let mut table = table(vec![row(1, "a", 0, 0)]);
    assert!(table.reschedule_job(at(50), vec![9], 2).unwrap().is_none());
    assert_eq!(table.rows().len(), 1);
}

#[test]
fn rescheduling_refuses_an_exhausted_count() {
    let mut table = table(vec![held(row(1, "a", 0, 0), i64::MAX)]);
    let error = table.reschedule_job(at(50), vec![9], 1).unwrap_err();
    assert_eq!(error, TableError::RetriesExhausted);
    assert!(find(&table, 1).is_running);
    assert_eq!(find(&table, 1).job_data, vec![1]);
}

#[test]
fn scheduling_adds_an_idle_job() {
    let mut table = table(vec![]);
    let written = table.schedule_job(4, "x".to_string(), at(30), vec![1, 2], 6).unwrap();
    match written.unwrap() {
        Write::Insert { row } => {
            assert_eq!((row.id, row.unique_job_id.as_str(), row.run_after), (4, "x", at(30)));
            assert_eq!((row.job_data, row.priority), (vec![1, 2], 6));
            assert_eq!((row.retries, row.is_running), (0, false));
        }
        _ => panic!("expected an insert"),
    }
    let job = find(&table, 4);
    assert_eq!((job.retries, job.is_running, job.priority), (0, false, 6));
    assert!(table.contains_unique_id(&"x".to_string()));
    assert!(!table.contains_unique_id(&"y".to_string()));
}

#[test]
fn scheduling_a_known_id_does_nothing() {
    let mut table = table(vec![held(row(1, "a", 0, 0), 0)]);
    let written = table.schedule_job(2, "a".to_string(), at(30), vec![5], 6).unwrap();
    assert!(written.is_none());
    assert_eq!(table.rows().len(), 1);
    assert_eq!(find(&table, 1).job_data, vec![1]);
    assert!(table.schedule_job(1, "a".to_string(), at(30), vec![5], 6).unwrap().is_none());
}

#[test]
fn scheduling_under_a_used_row_identifier_is_refused() {
    let mut table = table(vec![row(1, "a", 0, 0)]);
    let error = table.schedule_job(1, "b".to_string(), at(30), vec![5], 6).unwrap_err();
    assert_eq!(error, TableError::RowIdInUse);
    assert_eq!(table.rows().len(), 1);
}

#[test]
fn a_removed_job_can_be_scheduled_again() {
    let mut table = table(vec![row(1, "a", 0, 0)]);
    table.delete_job(1);
    assert!(table.schedule_job(1, "a".to_string(), at(0), vec![5], 0).unwrap().is_some());
}

#[test]
fn row_identifiers_grow_from_one() {
    assert_eq!(table(vec![]).next_row_id(), Some(1));
    assert_eq!(table(vec![row(-3, "a", 0, 0)]).next_row_id(), Some(1));
    assert_eq!(table(vec![row(9, "a", 0, 0), row(4, "b", 0, 0)]).next_row_id(), Some(10));
    assert_eq!(table(vec![row(i64::MAX, "a", 0, 0)]).next_row_id(), None);
}
