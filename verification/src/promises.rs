//! What the operations of a queue promise, field by field and value by value.

use vstd::prelude::*;

use crate::builder::BuilderView;
use crate::db::{
    has_row, jobs_in, position, rows_distinct, views, AcquiredJob, JobRow, TableError, Write,
};
use crate::job::Failure;
use crate::model::{
    abort, acquire, any_due, apply, can_abort, delete, due_ids, due_in, goes_first,
    holds_unique_id, is_next_row_id, next_job, replay, reschedule, retry, schedule,
    valid, JobView, Jobs, WriteView,
};
use crate::queue::{
    carried_out, handed_out, is_queue_action, monitor_signals, offered, put_back, removed,
    spawn_workers, start_signals, Effects, EffectsView, QueueView, Signal,
};
use crate::runner::{
    can_happen, loop_step, monitor_step, run_step, LoopAction, LoopEvent, MonitorAction,
    MonitorEvent, RunAction, RunEvent, RunState,
};
use crate::time::Timestamp;

verus! {

/// A new job is what it was given, whatever that is: its ID, its time, every byte of its encoding
/// and its priority. It was not tried yet, and nobody runs it.
pub proof fn law_a_new_job_is_what_it_was_given(
    unique_job_id: Seq<char>,
    run_after: Timestamp,
    job_data: Seq<u8>,
    priority: i64,
)
    ensures
        ({
            let job = JobView::fresh(unique_job_id, run_after, job_data, priority);
            &&& job.unique_job_id == unique_job_id
            &&& job.run_after == run_after
            &&& job.job_data == job_data
            &&& job.priority == priority
            &&& job.retries == 0
            &&& !job.is_running
        }),
{
}

/// A job is due when nobody runs it and its time is not later than the clock.
pub proof fn law_when_a_job_is_due(job: JobView, now: Timestamp)
    ensures
        job.is_due(now) <==> {
            &&& !job.is_running
            &&& job.run_after.secs < now.secs || (job.run_after.secs == now.secs
                && job.run_after.nanos <= now.nanos)
        },
{
}

/// A job outranks another by a higher priority, or at the same priority by an earlier time.
pub proof fn law_which_job_outranks_the_other(a: JobView, b: JobView)
    ensures
        a.priority > b.priority ==> a.outranks(b) && !b.outranks(a),
        a.priority == b.priority && a.run_after.secs < b.run_after.secs ==> a.outranks(b)
            && !b.outranks(a),
        a.priority == b.priority && a.run_after.secs == b.run_after.secs && a.run_after.nanos
            < b.run_after.nanos ==> a.outranks(b) && !b.outranks(a),
        a.priority == b.priority && a.run_after == b.run_after ==> !a.outranks(b) && !b.outranks(a),
{
}

/// Holding a job changes whether it is run and nothing else. Putting it back also changes what is
/// given for that, or counts one more retry.
pub proof fn law_what_changes_in_a_job(
    job: JobView,
    run_after: Timestamp,
    retries: int,
    job_data: Seq<u8>,
)
    ensures
        job.held().is_running,
        job.held().unique_job_id == job.unique_job_id,
        job.held().run_after == job.run_after,
        job.held().job_data == job.job_data,
        job.held().priority == job.priority,
        job.held().retries == job.retries,
        !job.requeued().is_running,
        job.requeued().unique_job_id == job.unique_job_id,
        job.requeued().run_after == job.run_after,
        job.requeued().job_data == job.job_data,
        job.requeued().priority == job.priority,
        job.requeued().retries == job.retries + 1,
        !job.retried(run_after, retries, job_data).is_running,
        job.retried(run_after, retries, job_data).unique_job_id == job.unique_job_id,
        job.retried(run_after, retries, job_data).run_after == run_after,
        job.retried(run_after, retries, job_data).job_data == job_data,
        job.retried(run_after, retries, job_data).priority == job.priority,
        job.retried(run_after, retries, job_data).retries == retries,
        job.can_retry() <==> job.retries < 9_223_372_036_854_775_807,
{
}

/// A row is read as what it holds, in every field.
pub proof fn law_a_row_is_what_it_holds(row: JobRow)
    ensures
        row@.unique_job_id == row.unique_job_id@,
        row@.run_after == row.run_after,
        row@.job_data == row.job_data@,
        row@.priority == row.priority,
        row@.retries == row.retries,
        row@.is_running == row.is_running,
{
}

/// Rows are distinct when no two share a row identifier and no two share a unique job ID.
pub proof fn law_when_rows_are_distinct(rows: Seq<JobRow>)
    ensures
        rows_distinct(rows) <==> forall|i: int, j: int|
            0 <= i < rows.len() && 0 <= j < rows.len() && i != j ==> (#[trigger] rows[i]).id != (
            #[trigger] rows[j]).id && rows[i].unique_job_id@ != rows[j].unique_job_id@,
{
    if rows_distinct(rows) {
        assert forall|i: int, j: int|
            0 <= i < rows.len() && 0 <= j < rows.len() && i != j implies (#[trigger] rows[i]).id != (
        #[trigger] rows[j]).id && rows[i].unique_job_id@ != rows[j].unique_job_id@ by {
            if i > j {
                assert(rows[j].id != rows[i].id);
            }
        }
    }
}

/// The jobs in distinct rows are those of the rows, each under its row identifier and as the row
/// holds it.
pub proof fn law_the_jobs_in_rows_are_those_of_the_rows(rows: Seq<JobRow>, i: int, id: i64)
    requires
        rows_distinct(rows),
        0 <= i < rows.len(),
    ensures
        jobs_in(rows).contains_key(rows[i].id),
        jobs_in(rows)[rows[i].id].unique_job_id == rows[i].unique_job_id@,
        jobs_in(rows)[rows[i].id].run_after == rows[i].run_after,
        jobs_in(rows)[rows[i].id].job_data == rows[i].job_data@,
        jobs_in(rows)[rows[i].id].priority == rows[i].priority,
        jobs_in(rows)[rows[i].id].retries == rows[i].retries,
        jobs_in(rows)[rows[i].id].is_running == rows[i].is_running,
        jobs_in(rows).contains_key(id) <==> exists|k: int|
            0 <= k < rows.len() && (#[trigger] rows[k]).id == id,
{
    assert(has_row(rows, rows[i].id));
    let p = position(rows, rows[i].id);
    assert(0 <= p < rows.len() && rows[p].id == rows[i].id);
    if p < i {
        assert(rows[p].id != rows[i].id);
    } else if i < p {
        assert(rows[i].id != rows[p].id);
    }
}

/// There are no jobs in no rows.
pub proof fn law_no_rows_hold_no_jobs(id: i64)
    ensures
        !jobs_in(Seq::<JobRow>::empty()).contains_key(id),
{
}

/// A write says what it holds, in every field, and a series of writes says so one by one.
pub proof fn law_a_write_is_what_it_holds(write: Write, writes: Seq<Write>, k: int)
    ensures
        match write {
            Write::Insert { row } => write@ matches WriteView::Insert { id, job } && id == row.id
                && job.unique_job_id == row.unique_job_id@ && job.run_after == row.run_after
                && job.job_data == row.job_data@ && job.priority == row.priority && job.retries
                == row.retries && job.is_running == row.is_running,
            Write::MarkRunning { id } => write@ == (WriteView::MarkRunning { id }),
            Write::Requeue { id, retries } => write@ == (WriteView::Requeue {
                id,
                retries: retries as int,
            }),
            Write::Reschedule { id, run_after, retries, job_data } => write@ == (
            WriteView::Reschedule { id, run_after, retries: retries as int, job_data: job_data@ }),
            Write::Delete { id } => write@ == (WriteView::Delete { id }),
        },
        views(writes).len() == writes.len(),
        0 <= k < writes.len() ==> views(writes)[k] == writes[k]@,
{
}

/// A write changes the row that it names, as it says, and no other. An insert adds the job as it
/// is, unless its row identifier or its unique job ID is taken.
pub proof fn law_what_a_write_changes(jobs: Jobs, write: WriteView, id: i64, other: i64)
    requires
        write == (WriteView::MarkRunning { id }) || write == (WriteView::Delete { id }) || (write
            matches WriteView::Insert { id: named, .. } && named == id) || (write matches
            WriteView::Requeue { id: named, .. } && named == id) || (write matches
            WriteView::Reschedule { id: named, .. } && named == id),
        other != id,
    ensures
        apply(jobs, write).contains_key(other) <==> jobs.contains_key(other),
        jobs.contains_key(other) ==> apply(jobs, write)[other] == jobs[other],
        write is Delete ==> !apply(jobs, write).contains_key(id),
        write matches WriteView::Insert { id: _, job } ==> !jobs.contains_key(id) && (forall|k: i64|
            jobs.contains_key(k) ==> #[trigger] jobs[k].unique_job_id != job.unique_job_id)
            ==> apply(jobs, write).contains_key(id) && apply(jobs, write)[id] == job,
        write is Insert && jobs.contains_key(id) ==> apply(jobs, write)[id] == jobs[id],
        write !is Insert && !jobs.contains_key(id) ==> !apply(jobs, write).contains_key(id),
        write !is Insert && write !is Delete && jobs.contains_key(id) ==> {
            let row = apply(jobs, write)[id];
            &&& apply(jobs, write).contains_key(id)
            &&& row.is_running == (write is MarkRunning)
            &&& row.unique_job_id == jobs[id].unique_job_id
            &&& row.priority == jobs[id].priority
            &&& row.run_after == (match write {
                WriteView::Reschedule { run_after, .. } => run_after,
                _ => jobs[id].run_after,
            })
            &&& row.job_data == (match write {
                WriteView::Reschedule { job_data, .. } => job_data,
                _ => jobs[id].job_data,
            })
            &&& row.retries == (match write {
                WriteView::Reschedule { retries, .. } => retries,
                WriteView::Requeue { retries, .. } => retries,
                _ => jobs[id].retries,
            })
        },
{
}

/// Writes are replayed one after the other.
pub proof fn law_writes_are_replayed_in_order(
    jobs: Jobs,
    writes: Seq<WriteView>,
    write: WriteView,
)
    ensures
        replay(jobs, Seq::<WriteView>::empty()) == jobs,
        replay(jobs, writes.push(write)) == apply(replay(jobs, writes), write),
{
    crate::model::lemma_replay_push(jobs, writes, write);
}

/// A queue is valid when it is finite and no two of its jobs have the same unique job ID.
pub proof fn law_when_a_queue_is_valid(jobs: Jobs)
    ensures
        valid(jobs) <==> {
            &&& jobs.dom().finite()
            &&& forall|a: i64, b: i64|
                jobs.contains_key(a) && jobs.contains_key(b) && #[trigger] jobs[a].unique_job_id
                    == #[trigger] jobs[b].unique_job_id ==> a == b
        },
{
    if jobs.dom().finite() && (forall|a: i64, b: i64|
        jobs.contains_key(a) && jobs.contains_key(b) && #[trigger] jobs[a].unique_job_id
            == #[trigger] jobs[b].unique_job_id ==> a == b) {
        assert forall|a: i64, b: i64|
            #![trigger jobs[a], jobs[b]]
            jobs.contains_key(a) && jobs.contains_key(b) && a != b implies jobs[a].unique_job_id
            != jobs[b].unique_job_id by {
            if jobs[a].unique_job_id == jobs[b].unique_job_id {
            }
        }
    }
}

/// The job that is next is idle, its time is not later than `now`, and no other idle job whose
/// time has come has a higher priority, or an earlier time at the same priority. There is none
/// next only when no idle job's time has come.
pub proof fn law_which_job_is_next(jobs: Jobs, now: Timestamp, other: i64)
    requires
        jobs.dom().finite(),
        jobs.contains_key(other),
        !jobs[other].is_running,
        jobs[other].run_after.secs < now.secs || (jobs[other].run_after.secs == now.secs
            && jobs[other].run_after.nanos <= now.nanos),
    ensures
        next_job(jobs, now) is Some,
        next_job(jobs, now) matches Some(id) ==> {
            let first = jobs[id];
            &&& jobs.contains_key(id)
            &&& !first.is_running
            &&& first.run_after.secs < now.secs || (first.run_after.secs == now.secs
                && first.run_after.nanos <= now.nanos)
            &&& first.priority >= jobs[other].priority
            &&& first.priority == jobs[other].priority ==> first.run_after.secs
                <= jobs[other].run_after.secs
            &&& first.priority == jobs[other].priority && first.run_after.secs
                == jobs[other].run_after.secs ==> first.run_after.nanos
                <= jobs[other].run_after.nanos
            &&& first.priority == jobs[other].priority && first.run_after == jobs[other].run_after
                ==> id <= other
        },
{
    assert(due_in(jobs, now, other));
    crate::laws::lemma_some_job_is_next(jobs, now);
    let id = next_job(jobs, now)->0;
    assert(goes_first(jobs, now, id));
}

/// Without an idle job whose time has come there is no next job.
pub proof fn law_no_job_is_next_before_its_time(jobs: Jobs, now: Timestamp, id: i64)
    requires
        next_job(jobs, now) == Some(id),
    ensures
        jobs.contains_key(id),
        !jobs[id].is_running,
        jobs[id].run_after.secs < now.secs || (jobs[id].run_after.secs == now.secs
            && jobs[id].run_after.nanos <= now.nanos),
{
    assert(goes_first(jobs, now, id));
}

/// Handing out a job marks it as running, and changes nothing else in it, nor any other job.
pub proof fn law_what_handing_out_changes(jobs: Jobs, now: Timestamp, id: i64)
    requires
        jobs.contains_key(id),
    ensures
        acquire(jobs, now).contains_key(id),
        acquire(jobs, now).dom() == jobs.dom(),
        acquire(jobs, now)[id].is_running <==> jobs[id].is_running || next_job(jobs, now) == Some(
            id,
        ),
        acquire(jobs, now)[id].unique_job_id == jobs[id].unique_job_id,
        acquire(jobs, now)[id].run_after == jobs[id].run_after,
        acquire(jobs, now)[id].job_data == jobs[id].job_data,
        acquire(jobs, now)[id].priority == jobs[id].priority,
        acquire(jobs, now)[id].retries == jobs[id].retries,
{
    if next_job(jobs, now) is Some {
        assert(goes_first(jobs, now, next_job(jobs, now)->0));
    }
    assert(acquire(jobs, now).dom() =~= jobs.dom());
}

/// A job is pending when some idle job's time has come.
pub proof fn law_when_a_job_is_pending(jobs: Jobs, now: Timestamp, id: i64)
    ensures
        any_due(jobs, now) <==> exists|k: i64|
            jobs.contains_key(k) && !(#[trigger] jobs[k]).is_running && (jobs[k].run_after.secs
                < now.secs || (jobs[k].run_after.secs == now.secs && jobs[k].run_after.nanos
                <= now.nanos)),
        due_ids(jobs, now).contains(id) <==> jobs.contains_key(id) && !jobs[id].is_running && (
        jobs[id].run_after.secs < now.secs || (jobs[id].run_after.secs == now.secs
            && jobs[id].run_after.nanos <= now.nanos)),
{
    if exists|k: i64|
        jobs.contains_key(k) && !(#[trigger] jobs[k]).is_running && (jobs[k].run_after.secs
            < now.secs || (jobs[k].run_after.secs == now.secs && jobs[k].run_after.nanos
            <= now.nanos)) {
        let k = choose|k: i64|
            jobs.contains_key(k) && !(#[trigger] jobs[k]).is_running && (jobs[k].run_after.secs
                < now.secs || (jobs[k].run_after.secs == now.secs && jobs[k].run_after.nanos
                <= now.nanos));
        assert(due_in(jobs, now, k));
    }
    if any_due(jobs, now) {
        let k = choose|k: i64| due_in(jobs, now, k);
        assert(!jobs[k].is_running);
    }
}

/// A restart leaves every job in the queue, idle, with one more retry if it was being run and
/// otherwise as it was. It can be done unless a running job's count is at its limit.
pub proof fn law_what_a_restart_changes(jobs: Jobs, id: i64)
    requires
        jobs.contains_key(id),
    ensures
        abort(jobs).dom() == jobs.dom(),
        !abort(jobs)[id].is_running,
        abort(jobs)[id].retries == if jobs[id].is_running {
            jobs[id].retries + 1
        } else {
            jobs[id].retries
        },
        abort(jobs)[id].unique_job_id == jobs[id].unique_job_id,
        abort(jobs)[id].run_after == jobs[id].run_after,
        abort(jobs)[id].job_data == jobs[id].job_data,
        abort(jobs)[id].priority == jobs[id].priority,
        can_abort(jobs) && jobs[id].is_running ==> jobs[id].retries < 9_223_372_036_854_775_807,
        (forall|k: i64|
            jobs.contains_key(k) ==> (#[trigger] jobs[k]).retries < 9_223_372_036_854_775_807)
            ==> can_abort(jobs),
        (forall|k: i64| jobs.contains_key(k) ==> !(#[trigger] jobs[k]).is_running) ==> can_abort(
            jobs,
        ),
{
    assert(abort(jobs).dom() =~= jobs.dom());
}

/// A restart can be done exactly when no running job's count is at its limit.
pub proof fn law_when_a_restart_can_be_done(jobs: Jobs)
    ensures
        can_abort(jobs) <==> !exists|id: i64|
            jobs.contains_key(id) && (#[trigger] jobs[id]).is_running && jobs[id].retries
                >= 9_223_372_036_854_775_807,
{
}

/// Removing a job removes it, and it alone.
pub proof fn law_what_removing_changes(jobs: Jobs, id: i64, other: i64)
    ensures
        !delete(jobs, id).contains_key(id),
        other != id ==> (delete(jobs, id).contains_key(other) <==> jobs.contains_key(other)),
        other != id && jobs.contains_key(other) ==> delete(jobs, id)[other] == jobs[other],
{
}

/// Putting a job back gives it the time, the retry count and the bytes that were given for it, and
/// leaves it idle under its ID and priority. Nothing else changes.
pub proof fn law_what_putting_back_changes(
    jobs: Jobs,
    id: i64,
    run_after: Timestamp,
    retries: int,
    job_data: Seq<u8>,
    other: i64,
)
    requires
        jobs.contains_key(id),
    ensures
        retry(jobs, id, run_after, retries, job_data).dom() == jobs.dom(),
        ({
            let job = retry(jobs, id, run_after, retries, job_data)[id];
            &&& !job.is_running
            &&& job.run_after == run_after
            &&& job.retries == retries
            &&& job.job_data == job_data
            &&& job.unique_job_id == jobs[id].unique_job_id
            &&& job.priority == jobs[id].priority
        }),
        ({
            let job = reschedule(jobs, id, run_after, job_data)[id];
            &&& !job.is_running
            &&& job.run_after == run_after
            &&& job.retries == jobs[id].retries + 1
            &&& job.job_data == job_data
            &&& job.unique_job_id == jobs[id].unique_job_id
            &&& job.priority == jobs[id].priority
        }),
        reschedule(jobs, id, run_after, job_data).dom() == jobs.dom(),
        other != id && jobs.contains_key(other) ==> retry(
            jobs,
            id,
            run_after,
            retries,
            job_data,
        )[other] == jobs[other] && reschedule(jobs, id, run_after, job_data)[other] == jobs[other],
{
    assert(retry(jobs, id, run_after, retries, job_data).dom() =~= jobs.dom());
    assert(reschedule(jobs, id, run_after, job_data).dom() =~= jobs.dom());
}

/// A job that is not in the queue cannot be put back.
pub proof fn law_a_missing_job_is_not_put_back(
    jobs: Jobs,
    id: i64,
    run_after: Timestamp,
    retries: int,
    job_data: Seq<u8>,
)
    requires
        !jobs.contains_key(id),
    ensures
        retry(jobs, id, run_after, retries, job_data) == jobs,
        reschedule(jobs, id, run_after, job_data) == jobs,
{
}

/// A job is added as it is if no job in the queue has its ID, and otherwise nothing changes.
pub proof fn law_what_scheduling_changes(jobs: Jobs, id: i64, job: JobView, other: i64)
    ensures
        holds_unique_id(jobs, job.unique_job_id) <==> exists|k: i64|
            jobs.contains_key(k) && #[trigger] jobs[k].unique_job_id == job.unique_job_id,
        (exists|k: i64|
            jobs.contains_key(k) && #[trigger] jobs[k].unique_job_id == job.unique_job_id)
            ==> schedule(jobs, id, job) == jobs,
        (forall|k: i64|
            jobs.contains_key(k) ==> #[trigger] jobs[k].unique_job_id != job.unique_job_id) ==> {
            &&& schedule(jobs, id, job).contains_key(id)
            &&& schedule(jobs, id, job)[id] == job
        },
        other != id && jobs.contains_key(other) ==> schedule(jobs, id, job).contains_key(other)
            && schedule(jobs, id, job)[other] == jobs[other],
        other != id && !jobs.contains_key(other) ==> !schedule(jobs, id, job).contains_key(other),
{
}

/// The next row identifier is 1 or one more than one in use, and larger than all in use.
pub proof fn law_which_row_id_is_next(jobs: Jobs, id: i64, other: i64)
    requires
        is_next_row_id(jobs, id),
    ensures
        id >= 1,
        jobs.contains_key(other) ==> other < id,
        id > 1 ==> jobs.contains_key((id - 1) as i64),
{
}

/// Offering a job under an ID that no job in the queue has stores it as it was offered, in the
/// queue and in the row that is written, and nothing else changes. Under an ID that is in the
/// queue it changes nothing. It is refused only where its row identifier is taken.
pub proof fn law_what_offering_a_job_does(
    before: QueueView,
    row_id: i64,
    job: JobView,
    after: QueueView,
    effects: Result<Effects, TableError>,
    other: i64,
)
    requires
        offered(before, row_id, job, after, effects),
    ensures
        after.monitor_spawned == before.monitor_spawned,
        (exists|k: i64|
            before.jobs.contains_key(k) && #[trigger] before.jobs[k].unique_job_id
                == job.unique_job_id) ==> effects is Ok && after.jobs == before.jobs
            && effects->Ok_0@.writes.len() == 0,
        (forall|k: i64|
            before.jobs.contains_key(k) ==> #[trigger] before.jobs[k].unique_job_id
                != job.unique_job_id) ==> {
            &&& effects is Ok <==> !before.jobs.contains_key(row_id)
            &&& effects is Ok ==> after.jobs.contains_key(row_id) && after.jobs[row_id] == job
            &&& effects is Ok ==> effects->Ok_0@.writes.len() == 1 && effects->Ok_0@.writes[0] == (
            WriteView::Insert { id: row_id, job })
        },
        other != row_id ==> (after.jobs.contains_key(other) <==> before.jobs.contains_key(other)),
        before.jobs.contains_key(other) ==> after.jobs.contains_key(other) && after.jobs[other]
            == before.jobs[other],
        effects matches Err(error) ==> error == TableError::RowIdInUse && after.jobs == before.jobs,
        effects matches Ok(done) ==> done@.signals.len() == 1 && done@.signals[0]
            == Signal::NotifyMonitor,
{
    if before.jobs.contains_key(other) && other == row_id && effects is Ok {
        assert(after.jobs == before.jobs);
    }
}

/// A job that is added under a new ID is in the queue with the ID, the time, the priority and
/// every byte that were passed in, and it is due at the time at which it was added.
pub proof fn law_an_added_job_is_stored_as_given(
    before: QueueView,
    row_id: i64,
    id: Seq<char>,
    now: Timestamp,
    job_data: Seq<u8>,
    priority: i64,
    after: QueueView,
    effects: Effects,
)
    requires
        offered(
            before,
            row_id,
            JobView::fresh(id, now, job_data, priority),
            after,
            Ok::<Effects, TableError>(effects),
        ),
        forall|k: i64|
            before.jobs.contains_key(k) ==> #[trigger] before.jobs[k].unique_job_id != id,
    ensures
        after.jobs.contains_key(row_id),
        after.jobs[row_id].unique_job_id == id,
        after.jobs[row_id].run_after == now,
        after.jobs[row_id].job_data == job_data,
        after.jobs[row_id].priority == priority,
        after.jobs[row_id].retries == 0,
        !after.jobs[row_id].is_running,
        due_in(after.jobs, now, row_id),
        effects@.writes.len() == 1,
        effects@.writes[0] matches WriteView::Insert { id: named, job } && named == row_id
            && job.unique_job_id == id && job.run_after == now && job.job_data == job_data
            && job.priority == priority && job.retries == 0 && !job.is_running,
{
}

/// A worker that looks for a job once the time of an added job has come is handed one, and if it
/// is handed the added job it gets every byte that was passed in.
pub proof fn law_an_added_job_is_handed_out_as_given(
    before: QueueView,
    row_id: i64,
    id: Seq<char>,
    added: Timestamp,
    job_data: Seq<u8>,
    priority: i64,
    between: QueueView,
    effects: Effects,
    now: Timestamp,
    after: QueueView,
    handed: Option<AcquiredJob>,
    written: EffectsView,
)
    requires
        offered(
            before,
            row_id,
            JobView::fresh(id, added, job_data, priority),
            between,
            Ok::<Effects, TableError>(effects),
        ),
        forall|k: i64|
            before.jobs.contains_key(k) ==> #[trigger] before.jobs[k].unique_job_id != id,
        handed_out(between, now, after, handed, written),
        added.secs < now.secs || (added.secs == now.secs && added.nanos <= now.nanos),
    ensures
        handed is Some,
        handed->0.id == row_id ==> handed->0.job_data@ == job_data && handed->0.retries == 0,
        (forall|k: i64| before.jobs.contains_key(k) ==> (#[trigger] before.jobs[k]).is_running)
            ==> handed->0.id == row_id,
{
    assert(due_in(between.jobs, now, row_id));
    if handed is Some {
        let first = handed->0.id;
        assert(goes_first(between.jobs, now, first));
        if first != row_id {
            assert(before.jobs.contains_key(first));
            assert(between.jobs[first] == before.jobs[first]);
        }
    }
}

/// A builder starts with the given job, ID and time and with priority 0, and what it puts into the
/// queue has exactly the ID, the time and the priority that it collected, whatever they are, and
/// the given bytes.
pub proof fn law_a_builder_schedules_what_it_collected<J>(
    job: J,
    id: Seq<char>,
    now: Timestamp,
    builder: BuilderView<J>,
    job_data: Seq<u8>,
)
    ensures
        BuilderView::<J>::starting(job, id, now).job == job,
        BuilderView::<J>::starting(job, id, now).id == id,
        BuilderView::<J>::starting(job, id, now).run_after == now,
        BuilderView::<J>::starting(job, id, now).priority == 0,
        builder.scheduled(job_data).unique_job_id == builder.id,
        builder.scheduled(job_data).run_after == builder.run_after,
        builder.scheduled(job_data).priority == builder.priority,
        builder.scheduled(job_data).job_data == job_data,
        builder.scheduled(job_data).retries == 0,
        !builder.scheduled(job_data).is_running,
{
}

/// Of two jobs that builders put into a queue, and whose times have both come, the one that was
/// given the higher priority is handed out first, and at the same priority the one with the
/// earlier time. It makes no difference which was scheduled first.
pub proof fn law_the_builder_with_the_higher_priority_goes_first<J, K>(
    start: QueueView,
    first: BuilderView<J>,
    first_data: Seq<u8>,
    first_row: i64,
    first_effects: Effects,
    between: QueueView,
    second: BuilderView<K>,
    second_data: Seq<u8>,
    second_row: i64,
    second_effects: Effects,
    both: QueueView,
    now: Timestamp,
    after: QueueView,
    handed: Option<AcquiredJob>,
    written: EffectsView,
)
    requires
        offered(
            start,
            first_row,
            first.scheduled(first_data),
            between,
            Ok::<Effects, TableError>(first_effects),
        ),
        offered(
            between,
            second_row,
            second.scheduled(second_data),
            both,
            Ok::<Effects, TableError>(second_effects),
        ),
        forall|k: i64|
            start.jobs.contains_key(k) ==> #[trigger] start.jobs[k].unique_job_id != first.id
                && start.jobs[k].unique_job_id != second.id,
        first.id != second.id,
        first.run_after.secs < now.secs || (first.run_after.secs == now.secs
            && first.run_after.nanos <= now.nanos),
        second.run_after.secs < now.secs || (second.run_after.secs == now.secs
            && second.run_after.nanos <= now.nanos),
        handed_out(both, now, after, handed, written),
    ensures
        handed is Some,
        first.priority > second.priority ==> handed->0.id != second_row,
        second.priority > first.priority ==> handed->0.id != first_row,
        first.priority == second.priority && first.run_after.secs < second.run_after.secs
            ==> handed->0.id != second_row,
        first.priority == second.priority && second.run_after.secs < first.run_after.secs
            ==> handed->0.id != first_row,
        handed->0.id == first_row ==> handed->0.job_data@ == first_data,
        handed->0.id == second_row ==> handed->0.job_data@ == second_data,
{
    assert(!holds_unique_id(start.jobs, first.id));
    assert(between.jobs[first_row].unique_job_id == first.id);
    assert forall|k: i64| between.jobs.contains_key(k) implies #[trigger] between.jobs[k].unique_job_id
        != second.id by {
        if k != first_row {
            assert(start.jobs.contains_key(k));
        }
    }
    assert(!holds_unique_id(between.jobs, second.id));
    assert(first_row != second_row);
    assert(both.jobs[first_row] == first.scheduled(first_data));
    assert(both.jobs[second_row] == second.scheduled(second_data));
    assert(due_in(both.jobs, now, first_row));
    assert(due_in(both.jobs, now, second_row));
    if handed is Some {
        assert(goes_first(both.jobs, now, handed->0.id));
    }
}

/// A worker that asks for a job at time `now` is handed only a job that is idle and whose time is
/// not later than `now`, with the bytes and the retry count of its row. No idle job whose time has
/// come has a higher priority, nor an earlier time at the same priority. The job is marked as
/// running, in the queue and in what is written, and nothing else changes. It is handed none only
/// if no idle job's time has come.
pub proof fn law_what_a_worker_is_handed(
    before: QueueView,
    now: Timestamp,
    after: QueueView,
    event: RunEvent,
    effects: EffectsView,
    other: i64,
)
    requires
        carried_out(before, RunAction::Acquire, now, after, event, effects),
    ensures
        event is Acquired,
        after.monitor_spawned == before.monitor_spawned,
        effects.signals.len() == 0,
        event->Acquired_0 is None ==> {
            &&& after.jobs == before.jobs
            &&& effects.writes.len() == 0
            &&& before.jobs.contains_key(other) && !before.jobs[other].is_running ==> now.secs
                < before.jobs[other].run_after.secs || (now.secs == before.jobs[other].run_after.secs
                && now.nanos < before.jobs[other].run_after.nanos)
        },
        event->Acquired_0 matches Some(job) ==> {
            let row = before.jobs[job.id];
            &&& before.jobs.contains_key(job.id)
            &&& !row.is_running
            &&& row.run_after.secs < now.secs || (row.run_after.secs == now.secs
                && row.run_after.nanos <= now.nanos)
            &&& job.job_data@ == row.job_data
            &&& job.retries == row.retries
            &&& after.jobs.dom() == before.jobs.dom()
            &&& after.jobs[job.id].is_running
            &&& after.jobs[job.id].job_data == row.job_data
            &&& after.jobs[job.id].run_after == row.run_after
            &&& after.jobs[job.id].unique_job_id == row.unique_job_id
            &&& after.jobs[job.id].priority == row.priority
            &&& after.jobs[job.id].retries == row.retries
            &&& other != job.id && before.jobs.contains_key(other) ==> after.jobs[other]
                == before.jobs[other]
            &&& effects.writes.len() == 1
            &&& effects.writes[0] == (WriteView::MarkRunning { id: job.id })
        },
        event->Acquired_0 matches Some(job) ==> before.jobs.contains_key(other)
            && !before.jobs[other].is_running && (before.jobs[other].run_after.secs < now.secs || (
        before.jobs[other].run_after.secs == now.secs && before.jobs[other].run_after.nanos
            <= now.nanos)) ==> {
            let row = before.jobs[job.id];
            &&& row.priority >= before.jobs[other].priority
            &&& row.priority == before.jobs[other].priority ==> row.run_after.secs
                <= before.jobs[other].run_after.secs
            &&& row.priority == before.jobs[other].priority && row.run_after.secs
                == before.jobs[other].run_after.secs ==> row.run_after.nanos
                <= before.jobs[other].run_after.nanos
        },
{
    if event->Acquired_0 is Some {
        assert(goes_first(before.jobs, now, event->Acquired_0->0.id));
        assert(after.jobs.dom() =~= before.jobs.dom());
    }
    if before.jobs.contains_key(other) && before.jobs[other].is_due(now) {
        assert(due_in(before.jobs, now, other));
    }
}

/// The same holds of a job that is handed out directly.
pub proof fn law_what_is_handed_out(
    before: QueueView,
    now: Timestamp,
    after: QueueView,
    job: Option<AcquiredJob>,
    effects: EffectsView,
)
    requires
        handed_out(before, now, after, job, effects),
    ensures
        carried_out(before, RunAction::Acquire, now, after, RunEvent::Acquired(job), effects),
{
}

/// A worker that is done with a job has it removed, and it alone, in the queue and in what is
/// written. The monitor is told.
pub proof fn law_what_finishing_a_job_does(
    before: QueueView,
    id: i64,
    now: Timestamp,
    after: QueueView,
    event: RunEvent,
    effects: EffectsView,
    other: i64,
)
    requires
        carried_out(before, RunAction::Delete { id }, now, after, event, effects) || (event is Stored
            && removed(before, id, after, effects)),
    ensures
        event is Stored,
        after.monitor_spawned == before.monitor_spawned,
        !after.jobs.contains_key(id),
        other != id ==> (after.jobs.contains_key(other) <==> before.jobs.contains_key(other)),
        other != id && before.jobs.contains_key(other) ==> after.jobs[other] == before.jobs[other],
        effects.writes.len() == 1,
        effects.writes[0] == (WriteView::Delete { id }),
        effects.signals.len() == 1,
        effects.signals[0] == Signal::NotifyMonitor,
{
}

/// A worker whose job failed has it put back with exactly the time, the retry count and the bytes
/// that it names, idle and under its ID and priority, in the queue and in what is written. No
/// other job changes. The monitor is told.
pub proof fn law_what_putting_a_job_back_does(
    before: QueueView,
    id: i64,
    run_after: Timestamp,
    retries: i64,
    job_data: Vec<u8>,
    now: Timestamp,
    after: QueueView,
    event: RunEvent,
    effects: EffectsView,
    other: i64,
)
    requires
        carried_out(
            before,
            RunAction::Reschedule { id, run_after, retries, job_data },
            now,
            after,
            event,
            effects,
        ) || (event is Stored && put_back(
            before,
            id,
            run_after,
            retries as int,
            job_data@,
            after,
            effects,
        )),
    ensures
        event is Stored,
        after.monitor_spawned == before.monitor_spawned,
        after.jobs.dom() == before.jobs.dom(),
        before.jobs.contains_key(id) ==> {
            let job = after.jobs[id];
            &&& !job.is_running
            &&& job.run_after == run_after
            &&& job.retries == retries
            &&& job.job_data == job_data@
            &&& job.unique_job_id == before.jobs[id].unique_job_id
            &&& job.priority == before.jobs[id].priority
            &&& effects.writes.len() == 1
            &&& effects.writes[0] == (WriteView::Reschedule {
                id,
                run_after,
                retries: retries as int,
                job_data: job_data@,
            })
        },
        !before.jobs.contains_key(id) ==> effects.writes.len() == 0,
        other != id && before.jobs.contains_key(other) ==> after.jobs[other] == before.jobs[other],
        effects.signals.len() == 1,
        effects.signals[0] == Signal::NotifyMonitor,
{
    assert(after.jobs.dom() =~= before.jobs.dom());
}

/// The monitor wakes the workers that wait, and lets one more look, exactly if some idle job's
/// time has come. Starting a worker lets one look, and starts the monitor if that was not done.
/// As many workers are started as are asked for.
pub proof fn law_which_tasks_are_told(
    jobs: Jobs,
    now: Timestamp,
    id: i64,
    queue: QueueView,
    num_workers: nat,
    i: int,
)
    ensures
        jobs.contains_key(id) && !jobs[id].is_running && (jobs[id].run_after.secs < now.secs || (
        jobs[id].run_after.secs == now.secs && jobs[id].run_after.nanos <= now.nanos))
            ==> monitor_signals(jobs, now).len() == 2 && monitor_signals(jobs, now)[0]
            == Signal::WakeWaitingRunners && monitor_signals(jobs, now)[1] == Signal::NotifyRunner,
        (forall|k: i64|
            jobs.contains_key(k) ==> (#[trigger] jobs[k]).is_running || now.secs
                < jobs[k].run_after.secs || (now.secs == jobs[k].run_after.secs && now.nanos
                < jobs[k].run_after.nanos)) ==> monitor_signals(jobs, now).len() == 0,
        queue.monitor_spawned ==> start_signals(queue).len() == 1 && start_signals(queue)[0]
            == Signal::NotifyRunner,
        !queue.monitor_spawned ==> start_signals(queue).len() == 2 && start_signals(queue)[0]
            == Signal::SpawnMonitor && start_signals(queue)[1] == Signal::NotifyRunner,
        spawn_workers(num_workers).len() == num_workers,
        0 <= i < num_workers ==> spawn_workers(num_workers)[i] == Signal::SpawnWorker,
{
    if jobs.contains_key(id) && jobs[id].is_due(now) {
        assert(due_in(jobs, now, id));
    }
    if any_due(jobs, now) {
        let k = choose|k: i64| due_in(jobs, now, k);
        assert(jobs[k].is_due(now));
    }
}

/// A worker acquires a job, decodes its bytes, runs it, and then has it removed if it succeeded or
/// failed fatally. Otherwise it encodes the job and has it put back, at the chosen time and with
/// one retry more than it was handed out with. It returns whether there was a job.
pub proof fn law_the_course_of_a_worker(job: AcquiredJob, at: Timestamp, job_data: Vec<u8>)
    ensures
        ({
            let begun = run_step(RunState::Start, RunEvent::Begin);
            let idle = run_step(begun.0, RunEvent::Acquired(None));
            let handed = run_step(begun.0, RunEvent::Acquired(Some(job)));
            let decoded = run_step(handed.0, RunEvent::Decoded);
            let succeeded = run_step(decoded.0, RunEvent::RunSucceeded);
            let fatal = run_step(decoded.0, RunEvent::RunFailed(Failure::Fatal));
            let failed = run_step(decoded.0, RunEvent::RunFailed(Failure::Retry(at)));
            let encoded = run_step(failed.0, RunEvent::Encoded(job_data));
            &&& begun.1 == RunAction::Acquire
            &&& idle.1 == RunAction::Return(false)
            &&& handed.1 == RunAction::Decode(job.job_data)
            &&& decoded.1 == RunAction::Run
            &&& decoded.0 == (RunState::Running { id: job.id, retries: job.retries })
            &&& succeeded.1 == (RunAction::Delete { id: job.id })
            &&& fatal.1 == (RunAction::Delete { id: job.id })
            &&& run_step(succeeded.0, RunEvent::Stored).1 == RunAction::Return(true)
            &&& run_step(fatal.0, RunEvent::Stored).1 == RunAction::Return(true)
            &&& job.retries < 9_223_372_036_854_775_807 ==> failed.1 == RunAction::Encode
            &&& job.retries < 9_223_372_036_854_775_807 ==> (encoded.1 matches
                RunAction::Reschedule { id, run_after, retries, job_data: stored } && id == job.id
                && run_after == at && retries == job.retries + 1 && stored == job_data)
            &&& job.retries < 9_223_372_036_854_775_807 ==> run_step(encoded.0, RunEvent::Stored).1
                == RunAction::Return(true)
        }),
{
}

/// Whatever state a worker is in, the event says what it does: a failed step or a missing time
/// ends the work with an error, an outcome that was stored ends it with `true`, and so on. What
/// can happen is what the state waits for.
pub proof fn law_what_a_worker_does(state: RunState, event: RunEvent)
    ensures
        can_happen(state, event) <==> match event {
            RunEvent::Begin => state is Start,
            RunEvent::Acquired(_) => state is Acquiring,
            RunEvent::Decoded => state is Decoding,
            RunEvent::RunSucceeded => state is Running,
            RunEvent::RunFailed(_) => state is Running,
            RunEvent::Encoded(_) => state is Encoding,
            RunEvent::Stored => state is Storing,
            RunEvent::StepFailed => state is Acquiring || state is Decoding || state is Encoding
                || state is Storing,
        },
        can_happen(state, event) ==> match event {
            RunEvent::Begin => run_step(state, event) == (RunState::Acquiring, RunAction::Acquire),
            RunEvent::Acquired(None) => run_step(state, event) == (
                RunState::Finished,
                RunAction::Return(false),
            ),
            RunEvent::Acquired(Some(job)) => run_step(state, event) == (
                RunState::Decoding { id: job.id, retries: job.retries },
                RunAction::Decode(job.job_data),
            ),
            RunEvent::Decoded => run_step(state, event) == (
                RunState::Running {
                    id: state->Decoding_id,
                    retries: state->Decoding_retries,
                },
                RunAction::Run,
            ),
            RunEvent::RunSucceeded => run_step(state, event) == (
                RunState::Storing,
                RunAction::Delete { id: state->Running_id },
            ),
            RunEvent::RunFailed(Failure::Fatal) => run_step(state, event) == (
                RunState::Storing,
                RunAction::Delete { id: state->Running_id },
            ),
            RunEvent::RunFailed(Failure::Retry(at)) => state->Running_retries
                < 9_223_372_036_854_775_807 ==> run_step(state, event) == (
                RunState::Encoding {
                    id: state->Running_id,
                    run_after: at,
                    retries: (state->Running_retries + 1) as i64,
                },
                RunAction::Encode,
            ),
            RunEvent::RunFailed(Failure::NoRetryTime) => run_step(state, event) == (
                RunState::Finished,
                RunAction::Fail,
            ),
            RunEvent::Encoded(job_data) => run_step(state, event) == (
                RunState::Storing,
                RunAction::Reschedule {
                    id: state->Encoding_id,
                    run_after: state->Encoding_run_after,
                    retries: state->Encoding_retries,
                    job_data,
                },
            ),
            RunEvent::Stored => run_step(state, event) == (
                RunState::Finished,
                RunAction::Return(true),
            ),
            RunEvent::StepFailed => run_step(state, event) == (RunState::Finished, RunAction::Fail),
        },
        state is Running && state->Running_retries == 9_223_372_036_854_775_807 && (event matches
            RunEvent::RunFailed(Failure::Retry(at))) ==> run_step(state, event) == (
            RunState::Finished,
            RunAction::Fail,
        ),
{
}

/// The queue carries out taking, removing and putting back a job, and nothing else.
pub proof fn law_what_the_queue_carries_out(
    id: i64,
    run_after: Timestamp,
    retries: i64,
    job_data: Vec<u8>,
    ran: bool,
)
    ensures
        is_queue_action(RunAction::Acquire),
        is_queue_action(RunAction::Delete { id }),
        is_queue_action(RunAction::Reschedule { id, run_after, retries, job_data }),
        !is_queue_action(RunAction::Decode(job_data)),
        !is_queue_action(RunAction::Run),
        !is_queue_action(RunAction::Encode),
        !is_queue_action(RunAction::Return(ran)),
        !is_queue_action(RunAction::Fail),
{
}

/// A worker task goes on running jobs while there are any, waits when there are none, looks again
/// when it is notified, and stops on an error. The monitor looks when it starts and after each
/// wait, waits ten seconds at most after each look, and stops on an error.
pub proof fn law_the_course_of_the_tasks()
    ensures
        loop_step(LoopEvent::Started) == LoopAction::RunJob,
        loop_step(LoopEvent::JobRun(true)) == LoopAction::RunJob,
        loop_step(LoopEvent::JobRun(false)) == LoopAction::Wait,
        loop_step(LoopEvent::Notified) == LoopAction::RunJob,
        loop_step(LoopEvent::RunError) == LoopAction::Stop,
        monitor_step(MonitorEvent::Started) == MonitorAction::Look,
        monitor_step(MonitorEvent::Looked) == (MonitorAction::Wait { seconds: 10 }),
        monitor_step(MonitorEvent::Notified) == MonitorAction::Look,
        monitor_step(MonitorEvent::TimedOut) == MonitorAction::Look,
        monitor_step(MonitorEvent::LookError) == MonitorAction::Stop,
{
}

} // verus!
