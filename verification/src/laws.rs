//! What holds of a queue as a whole: over several operations, in any order, by any number of
//! workers.

use vstd::prelude::*;

use crate::db::{AcquiredJob, TableError};
use crate::job::Failure;
use crate::model::{
    abort, acquire, any_due, apply, can_abort, delete, due_ids, due_in, goes_before, goes_first,
    holds_unique_id, is_next_row_id, next_job, replay, reschedule, retry, schedule, valid, JobView,
    Jobs,    WriteView,
};
use crate::queue::{
    carried_out, handed_out, is_queue_action, monitor_signals, offered, put_back, removed,
    start_signals, wake_up, Effects, EffectsView, QueueView, Signal,
};
use crate::runner::{can_happen, run_step, RunAction, RunEvent, RunState};
use crate::time::Timestamp;

verus! {

/// An operation on the jobs of a queue, by whichever task.
pub enum Op {
    /// Hand out the next job due at this time.
    Acquire { now: Timestamp },
    /// Remove a job.
    Delete { id: i64 },
    /// Put a job back after a failure, with this retry count.
    Retry { id: i64, run_after: Timestamp, retries: int, job_data: Seq<u8> },
    /// Put a job back after a failure, with one retry more than its row counts.
    Reschedule { id: i64, run_after: Timestamp, job_data: Seq<u8> },
    /// Offer a new job.
    Schedule {
        id: i64,
        unique_job_id: Seq<char>,
        run_after: Timestamp,
        job_data: Seq<u8>,
        priority: i64,
    },
    /// Put back all jobs that are being run, as a restart does.
    Abort,
}

/// The jobs after an operation. An operation that ends with an error changes nothing.
pub open spec fn after(jobs: Jobs, op: Op) -> Jobs {
    match op {
        Op::Acquire { now } => acquire(jobs, now),
        Op::Delete { id } => delete(jobs, id),
        Op::Retry { id, run_after, retries, job_data } => retry(
            jobs,
            id,
            run_after,
            retries,
            job_data,
        ),
        Op::Reschedule { id, run_after, job_data } => if jobs.contains_key(id)
            && !jobs[id].can_retry() {
            jobs
        } else {
            reschedule(jobs, id, run_after, job_data)
        },
        Op::Schedule { id, unique_job_id, run_after, job_data, priority } => if jobs.contains_key(
            id,
        ) {
            jobs
        } else {
            schedule(jobs, id, JobView::fresh(unique_job_id, run_after, job_data, priority))
        },
        Op::Abort => if can_abort(jobs) {
            abort(jobs)
        } else {
            jobs
        },
    }
}

/// The jobs after a series of operations.
pub open spec fn after_all(jobs: Jobs, ops: Seq<Op>) -> Jobs
    decreases ops.len(),
{
    if ops.len() == 0 {
        jobs
    } else {
        after(after_all(jobs, ops.drop_last()), ops.last())
    }
}

/// Whether an operation neither finishes the job in row `id` nor puts it back.
pub open spec fn leaves_alone(op: Op, id: i64) -> bool {
    match op {
        Op::Delete { id: other } => other != id,
        Op::Retry { id: other, .. } => other != id,
        Op::Reschedule { id: other, .. } => other != id,
        Op::Abort => false,
        _ => true,
    }
}

/// Whether none of the operations finishes the job in row `id` or puts it back.
pub open spec fn all_leave_alone(ops: Seq<Op>, id: i64) -> bool {
    forall|k: int| 0 <= k < ops.len() ==> leaves_alone(#[trigger] ops[k], id)
}

/// What `next_job` names goes first.
proof fn lemma_next_goes_first(jobs: Jobs, now: Timestamp)
    ensures
        next_job(jobs, now) matches Some(id) ==> goes_first(jobs, now, id),
{
}

/// A job that goes before a second, which goes before a third, goes before the third.
proof fn lemma_goes_before_transitive(jobs: Jobs, a: i64, b: i64, c: i64)
    requires
        goes_before(jobs, a, b),
        goes_before(jobs, b, c),
    ensures
        goes_before(jobs, a, c),
{
}

/// Among finitely many due jobs one goes first.
proof fn lemma_first_of(jobs: Jobs, now: Timestamp, among: Set<i64>) -> (first: i64)
    requires
        among.finite(),
        among.len() > 0,
        forall|id: i64| among.contains(id) ==> due_in(jobs, now, id),
    ensures
        among.contains(first),
        forall|other: i64|
            #[trigger] among.contains(other) && other != first ==> goes_before(jobs, first, other),
    decreases among.len(),
{
    let some = among.choose();
    let rest = among.remove(some);
    if rest.len() == 0 {
        assert forall|other: i64| #[trigger] among.contains(other) && other != some implies false by {
            assert(rest.contains(other));
        }
        some
    } else {
        let first = lemma_first_of(jobs, now, rest);
        if goes_before(jobs, first, some) {
            assert forall|other: i64| #[trigger]
                among.contains(other) && other != first implies goes_before(jobs, first, other) by {
                if other != some {
                    assert(rest.contains(other));
                }
            }
            first
        } else {
            assert(goes_before(jobs, some, first));
            assert forall|other: i64| #[trigger]
                among.contains(other) && other != some implies goes_before(jobs, some, other) by {
                assert(rest.contains(other));
                if other != first {
                    lemma_goes_before_transitive(jobs, some, first, other);
                }
            }
            some
        }
    }
}

/// The due jobs of a finite queue are finitely many.
proof fn lemma_due_finite(jobs: Jobs, now: Timestamp)
    requires
        jobs.dom().finite(),
    ensures
        due_ids(jobs, now).finite(),
{
    assert(due_ids(jobs, now).subset_of(jobs.dom()));
    vstd::set_lib::lemma_len_subset(due_ids(jobs, now), jobs.dom());
}

/// In a finite queue some job is next if any is due.
pub proof fn lemma_some_job_is_next(jobs: Jobs, now: Timestamp)
    requires
        jobs.dom().finite(),
        any_due(jobs, now),
    ensures
        next_job(jobs, now) is Some,
{
    let id = choose|id: i64| due_in(jobs, now, id);
    let due = due_ids(jobs, now);
    lemma_due_finite(jobs, now);
    assert(due.contains(id));
    let first = lemma_first_of(jobs, now, due);
    assert forall|other: i64| #[trigger] due_in(jobs, now, other) && other != first implies goes_before(
        jobs,
        first,
        other,
    ) by {
        assert(due.contains(other));
    }
    assert(goes_first(jobs, now, first));
}

/// A job is handed out exactly when some job is due.
pub proof fn law_a_due_job_is_handed_out(jobs: Jobs, now: Timestamp)
    requires
        valid(jobs),
    ensures
        any_due(jobs, now) <==> next_job(jobs, now) is Some,
{
    if any_due(jobs, now) {
        lemma_some_job_is_next(jobs, now);
    }
    if next_job(jobs, now) is Some {
        lemma_next_goes_first(jobs, now);
    }
}

/// A job is never handed out before its time, nor while it is being run.
pub proof fn law_no_job_starts_early_or_twice(jobs: Jobs, now: Timestamp, id: i64)
    requires
        next_job(jobs, now) == Some(id),
    ensures
        jobs.contains_key(id),
        !jobs[id].is_running,
        jobs[id].run_after.at_or_before(now),
        acquire(jobs, now)[id] == jobs[id].held(),
{
    lemma_next_goes_first(jobs, now);
}

/// Of the jobs that are due, one with the highest priority is handed out, and of those with that
/// priority one that has been due for the longest time.
pub proof fn law_due_jobs_run_in_order_of_priority_then_time(
    jobs: Jobs,
    now: Timestamp,
    id: i64,
    other: i64,
)
    requires
        next_job(jobs, now) == Some(id),
        due_in(jobs, now, other),
    ensures
        jobs[id].priority >= jobs[other].priority,
        jobs[id].priority == jobs[other].priority ==> jobs[id].run_after.at_or_before(
            jobs[other].run_after,
        ),
{
    lemma_next_goes_first(jobs, now);
}

/// Two jobs that are handed out one after the other at the same time are different, and the first
/// one goes before the second.
pub proof fn law_jobs_are_handed_out_in_order(jobs: Jobs, now: Timestamp, first: i64, second: i64)
    requires
        next_job(jobs, now) == Some(first),
        next_job(acquire(jobs, now), now) == Some(second),
    ensures
        first != second,
        goes_before(jobs, first, second),
{
    lemma_next_goes_first(jobs, now);
    lemma_next_goes_first(acquire(jobs, now), now);
    assert(due_in(jobs, now, second));
}

/// Once a job is due it stays due, until it is handed out or removed.
pub proof fn law_due_jobs_stay_due(jobs: Jobs, now: Timestamp, later: Timestamp, id: i64)
    requires
        due_in(jobs, now, id),
        now.at_or_before(later),
    ensures
        due_in(jobs, later, id),
{
}

/// Handing out a job takes it, and no other, from the jobs that are due.
pub proof fn law_handing_out_takes_one_due_job(jobs: Jobs, now: Timestamp, id: i64)
    requires
        valid(jobs),
        next_job(jobs, now) == Some(id),
    ensures
        due_ids(acquire(jobs, now), now) == due_ids(jobs, now).remove(id),
        due_ids(acquire(jobs, now), now).len() + 1 == due_ids(jobs, now).len(),
{
    lemma_next_goes_first(jobs, now);
    lemma_due_finite(jobs, now);
    assert(due_ids(acquire(jobs, now), now) =~= due_ids(jobs, now).remove(id));
    assert(due_ids(jobs, now).contains(id));
}

/// The jobs after `n` were handed out one after the other.
pub open spec fn acquire_times(jobs: Jobs, now: Timestamp, n: nat) -> Jobs
    decreases n,
{
    if n == 0 {
        jobs
    } else {
        acquire_times(acquire(jobs, now), now, (n - 1) as nat)
    }
}

/// Workers that go on as long as there are jobs to run start every job that is due, each of them
/// once, and then find nothing more to run.
pub proof fn law_every_due_job_is_started(jobs: Jobs, now: Timestamp, id: i64)
    requires
        valid(jobs),
        due_in(jobs, now, id),
    ensures
        acquire_times(jobs, now, due_ids(jobs, now).len()).contains_key(id),
        acquire_times(jobs, now, due_ids(jobs, now).len())[id] == jobs[id].held(),
        !any_due(acquire_times(jobs, now, due_ids(jobs, now).len()), now),
{
    lemma_drained(jobs, now, due_ids(jobs, now).len());
    assert(due_ids(jobs, now).contains(id));
}

/// As many acquisitions as there are due jobs hold exactly those, and leave none.
proof fn lemma_drained(jobs: Jobs, now: Timestamp, n: nat)
    requires
        valid(jobs),
        due_ids(jobs, now).len() == n,
    ensures
        !any_due(acquire_times(jobs, now, n), now),
        forall|id: i64| #[trigger]
            jobs.contains_key(id) ==> acquire_times(jobs, now, n).contains_key(id)
                && acquire_times(jobs, now, n)[id] == (if due_in(jobs, now, id) {
                jobs[id].held()
            } else {
                jobs[id]
            }),
    decreases n,
{
    lemma_due_finite(jobs, now);
    if n == 0 {
        assert forall|id: i64| !#[trigger] due_in(jobs, now, id) by {
            assert(!due_ids(jobs, now).contains(id)) by {
                if due_ids(jobs, now).contains(id) {
                    vstd::set::axiom_set_contains_len(due_ids(jobs, now), id);
                }
            }
        }
    } else {
        let some = due_ids(jobs, now).choose();
        assert(due_ids(jobs, now).contains(some));
        assert(due_in(jobs, now, some));
        law_a_due_job_is_handed_out(jobs, now);
        let first = next_job(jobs, now)->0;
        lemma_next_goes_first(jobs, now);
        law_handing_out_takes_one_due_job(jobs, now, first);
        let next = acquire(jobs, now);
        lemma_after_valid(jobs, Op::Acquire { now });
        lemma_drained(next, now, (n - 1) as nat);
        assert forall|id: i64| #[trigger] jobs.contains_key(id) implies acquire_times(
            jobs,
            now,
            n,
        ).contains_key(id) && acquire_times(jobs, now, n)[id] == (if due_in(jobs, now, id) {
            jobs[id].held()
        } else {
            jobs[id]
        }) by {
            assert(next.contains_key(id));
            assert(acquire_times(jobs, now, n) == acquire_times(next, now, (n - 1) as nat));
        }
    }
}

/// One operation keeps a queue valid.
proof fn lemma_after_valid(jobs: Jobs, op: Op)
    requires
        valid(jobs),
    ensures
        valid(after(jobs, op)),
{
    let next = after(jobs, op);
    match op {
        Op::Acquire { now } => {
            lemma_next_goes_first(jobs, now);
        },
        Op::Delete { id } => {},
        Op::Retry { id, run_after, retries, job_data } => {},
        Op::Reschedule { id, run_after, job_data } => {},
        Op::Schedule { id, unique_job_id, run_after, job_data, priority } => {
            if !jobs.contains_key(id) && !holds_unique_id(jobs, unique_job_id) {
                assert forall|a: i64, b: i64|
                    #![trigger next[a], next[b]]
                    next.contains_key(a) && next.contains_key(b) && a != b implies next[a].unique_job_id
                    != next[b].unique_job_id by {
                    if a == id {
                        assert(jobs[b].unique_job_id != unique_job_id);
                    } else if b == id {
                        assert(jobs[a].unique_job_id != unique_job_id);
                    }
                }
            }
        },
        Op::Abort => {
            assert(abort(jobs).dom() =~= jobs.dom());
        },
    }
}

/// Whatever is done to a queue, no two of its jobs ever share a unique job ID.
pub proof fn law_unique_ids_stay_unique(jobs: Jobs, ops: Seq<Op>)
    requires
        valid(jobs),
    ensures
        valid(after_all(jobs, ops)),
    decreases ops.len(),
{
    if ops.len() > 0 {
        law_unique_ids_stay_unique(jobs, ops.drop_last());
        lemma_after_valid(after_all(jobs, ops.drop_last()), ops.last());
    }
}

/// A queue that starts out empty is valid after any operations.
pub proof fn law_every_reachable_queue_is_valid(ops: Seq<Op>)
    ensures
        valid(after_all(Map::empty(), ops)),
{
    law_unique_ids_stay_unique(Map::empty(), ops);
}

/// While one worker holds a job, nothing that other workers do to other jobs touches it, and it
/// is not handed out to any of them.
pub proof fn law_a_held_job_belongs_to_one_worker(jobs: Jobs, ops: Seq<Op>, id: i64, k: int)
    requires
        jobs.contains_key(id),
        jobs[id].is_running,
        all_leave_alone(ops, id),
        0 <= k < ops.len(),
    ensures
        after_all(jobs, ops).contains_key(id),
        after_all(jobs, ops)[id] == jobs[id],
        ops[k] matches Op::Acquire { now } ==> next_job(after_all(jobs, ops.take(k)), now) != Some(
            id,
        ),
{
    lemma_held(jobs, ops, id);
    lemma_held(jobs, ops.take(k), id);
    if let Op::Acquire { now } = ops[k] {
        lemma_next_goes_first(after_all(jobs, ops.take(k)), now);
    }
}

/// A held job is unchanged by operations that leave it alone.
proof fn lemma_held(jobs: Jobs, ops: Seq<Op>, id: i64)
    requires
        jobs.contains_key(id),
        jobs[id].is_running,
        all_leave_alone(ops, id),
    ensures
        after_all(jobs, ops).contains_key(id),
        after_all(jobs, ops)[id] == jobs[id],
    decreases ops.len(),
{
    if ops.len() > 0 {
        let before = after_all(jobs, ops.drop_last());
        assert forall|k: int| 0 <= k < ops.drop_last().len() implies leaves_alone(
            #[trigger] ops.drop_last()[k],
            id,
        ) by {
            assert(leaves_alone(ops[k], id));
        }
        lemma_held(jobs, ops.drop_last(), id);
        assert(leaves_alone(ops[ops.len() - 1], id));
        if let Op::Acquire { now } = ops.last() {
            lemma_next_goes_first(before, now);
        }
    }
}

/// Whether none of the operations removes the job in row `id`.
pub open spec fn none_deletes(ops: Seq<Op>, id: i64) -> bool {
    forall|k: int| 0 <= k < ops.len() ==> #[trigger] ops[k] != (Op::Delete { id })
}

/// Whether an operation neither removes the job in row `id` nor puts it back after a failure.
pub open spec fn keeps_contents(op: Op, id: i64) -> bool {
    leaves_alone(op, id) || op is Abort
}

/// A job leaves the queue only by being removed. Until then it keeps its ID and its priority.
pub proof fn law_no_job_is_lost(jobs: Jobs, ops: Seq<Op>, id: i64)
    requires
        jobs.contains_key(id),
        none_deletes(ops, id),
    ensures
        after_all(jobs, ops).contains_key(id),
        after_all(jobs, ops)[id].unique_job_id == jobs[id].unique_job_id,
        after_all(jobs, ops)[id].priority == jobs[id].priority,
    decreases ops.len(),
{
    if ops.len() > 0 {
        let before = after_all(jobs, ops.drop_last());
        assert forall|k: int| 0 <= k < ops.drop_last().len() implies #[trigger] ops.drop_last()[k]
            != (Op::Delete { id }) by {
            assert(ops[k] != (Op::Delete { id }));
        }
        law_no_job_is_lost(jobs, ops.drop_last(), id);
        assert(ops[ops.len() - 1] != (Op::Delete { id }));
        if let Op::Acquire { now } = ops.last() {
            lemma_next_goes_first(before, now);
        }
    }
}

/// Until a job is removed or put back after a failure it stays what it is: the encoded job, its
/// time, its ID and its priority are those that it was scheduled with. Its retry count does not go
/// down.
pub proof fn law_a_job_keeps_its_contents(jobs: Jobs, ops: Seq<Op>, id: i64)
    requires
        jobs.contains_key(id),
        forall|k: int| 0 <= k < ops.len() ==> keeps_contents(#[trigger] ops[k], id),
    ensures
        after_all(jobs, ops).contains_key(id),
        after_all(jobs, ops)[id].job_data == jobs[id].job_data,
        after_all(jobs, ops)[id].run_after == jobs[id].run_after,
        after_all(jobs, ops)[id].unique_job_id == jobs[id].unique_job_id,
        after_all(jobs, ops)[id].priority == jobs[id].priority,
        after_all(jobs, ops)[id].retries >= jobs[id].retries,
    decreases ops.len(),
{
    if ops.len() > 0 {
        let before = after_all(jobs, ops.drop_last());
        assert forall|k: int| 0 <= k < ops.drop_last().len() implies keeps_contents(
            #[trigger] ops.drop_last()[k],
            id,
        ) by {
            assert(keeps_contents(ops[k], id));
        }
        law_a_job_keeps_its_contents(jobs, ops.drop_last(), id);
        assert(keeps_contents(ops[ops.len() - 1], id));
        if let Op::Acquire { now } = ops.last() {
            lemma_next_goes_first(before, now);
        }
    }
}

/// What a worker is handed is the job that was scheduled, unless it was put back after a failure
/// in between.
pub proof fn law_what_is_handed_out_is_what_was_scheduled(
    jobs: Jobs,
    id: i64,
    scheduled: JobView,
    ops: Seq<Op>,
    now: Timestamp,
    job: AcquiredJob,
)
    requires
        !holds_unique_id(jobs, scheduled.unique_job_id),
        forall|k: int| 0 <= k < ops.len() ==> keeps_contents(#[trigger] ops[k], id),
        is_handed(after_all(schedule(jobs, id, scheduled), ops), now, job),
        job.id == id,
    ensures
        job.job_data@ == scheduled.job_data,
        scheduled.run_after.at_or_before(now),
{
    law_a_job_keeps_its_contents(schedule(jobs, id, scheduled), ops, id);
    lemma_next_goes_first(after_all(schedule(jobs, id, scheduled), ops), now);
}

/// Whether no retry count is negative.
pub open spec fn counts_from_zero(jobs: Jobs) -> bool {
    forall|id: i64| #![trigger jobs[id]] jobs.contains_key(id) ==> 0 <= jobs[id].retries
}

/// Retry counts start at zero and never become negative, as long as none is stored that is.
pub proof fn law_retry_counts_are_never_negative(jobs: Jobs, ops: Seq<Op>)
    requires
        counts_from_zero(jobs),
        forall|k: int|
            0 <= k < ops.len() ==> (#[trigger] ops[k] matches Op::Retry { retries, .. } ==> 0
                <= retries),
    ensures
        counts_from_zero(after_all(jobs, ops)),
    decreases ops.len(),
{
    if ops.len() > 0 {
        let before = after_all(jobs, ops.drop_last());
        assert forall|k: int| 0 <= k < ops.drop_last().len() implies (
        #[trigger] ops.drop_last()[k] matches Op::Retry { retries, .. } ==> 0 <= retries) by {
            assert(ops[k] == ops.drop_last()[k]);
        }
        law_retry_counts_are_never_negative(jobs, ops.drop_last());
        assert(ops[ops.len() - 1] == ops.last());
        if let Op::Acquire { now } = ops.last() {
            lemma_next_goes_first(before, now);
        }
    }
}

/// The row identifier that is chosen for a new job is free, so that offering the job under it
/// does not end with an error.
pub proof fn law_the_next_row_id_is_free(
    before: QueueView,
    row_id: i64,
    job: JobView,
    after: QueueView,
    effects: Result<Effects, TableError>,
)
    requires
        is_next_row_id(before.jobs, row_id),
        offered(before, row_id, job, after, effects),
    ensures
        effects is Ok,
        holds_unique_id(after.jobs, job.unique_job_id),
{
    if !holds_unique_id(before.jobs, job.unique_job_id) {
        assert(after.jobs[row_id].unique_job_id == job.unique_job_id);
    }
}

/// A job that is offered again under the same ID, even with other contents, changes nothing while
/// the first one is in the queue.
pub proof fn law_a_job_is_only_scheduled_once(
    jobs: Jobs,
    first_id: i64,
    first: JobView,
    second_id: i64,
    second: JobView,
)
    requires
        first.unique_job_id == second.unique_job_id,
    ensures
        schedule(schedule(jobs, first_id, first), second_id, second) == schedule(
            jobs,
            first_id,
            first,
        ),
{
    let once = schedule(jobs, first_id, first);
    if !holds_unique_id(jobs, first.unique_job_id) {
        assert(once[first_id].unique_job_id == second.unique_job_id);
    }
}

/// After a job was removed its ID can be used again.
pub proof fn law_a_removed_job_can_be_scheduled_again(jobs: Jobs, id: i64)
    requires
        valid(jobs),
        jobs.contains_key(id),
    ensures
        !holds_unique_id(delete(jobs, id), jobs[id].unique_job_id),
{
    assert forall|other: i64| delete(jobs, id).contains_key(other) implies #[trigger] delete(
        jobs,
        id,
    )[other].unique_job_id != jobs[id].unique_job_id by {
        assert(jobs[other].unique_job_id != jobs[id].unique_job_id);
    }
}

/// A restart keeps all jobs: those that were waiting as they were, and those that were being run
/// with one more retry counted. None is being run afterwards, and a second restart changes
/// nothing.
pub proof fn law_a_restart_keeps_all_jobs(jobs: Jobs, id: i64)
    ensures
        abort(jobs).dom() == jobs.dom(),
        jobs.contains_key(id) && !jobs[id].is_running ==> abort(jobs)[id] == jobs[id],
        jobs.contains_key(id) && jobs[id].is_running ==> abort(jobs)[id] == jobs[id].requeued(),
        jobs.contains_key(id) ==> !abort(jobs)[id].is_running,
        can_abort(abort(jobs)),
        abort(abort(jobs)) == abort(jobs),
{
    assert(abort(jobs).dom() =~= jobs.dom());
    assert(abort(abort(jobs)) =~= abort(jobs));
}

/// A job that was put back after a failure is tried again from the given time on, and no sooner.
pub proof fn law_a_failed_job_is_retried_from_its_time_on(
    jobs: Jobs,
    id: i64,
    run_after: Timestamp,
    retries: int,
    job_data: Seq<u8>,
    now: Timestamp,
)
    requires
        jobs.contains_key(id),
    ensures
        due_in(retry(jobs, id, run_after, retries, job_data), now, id) <==> run_after.at_or_before(
            now,
        ),
        retry(jobs, id, run_after, retries, job_data)[id].retries == retries,
        retry(jobs, id, run_after, retries, job_data)[id].job_data == job_data,
        retry(jobs, id, run_after, retries, job_data).remove(id) == jobs.remove(id),
{
    assert(retry(jobs, id, run_after, retries, job_data).remove(id) =~= jobs.remove(id));
}

/// Workers are woken by the monitor exactly when some job is due.
pub proof fn law_the_monitor_wakes_workers_for_due_jobs(jobs: Jobs, now: Timestamp)
    requires
        valid(jobs),
    ensures
        monitor_signals(jobs, now) == wake_up() <==> next_job(jobs, now) is Some,
        monitor_signals(jobs, now) == Seq::<Signal>::empty() <==> next_job(jobs, now) is None,
{
    law_a_due_job_is_handed_out(jobs, now);
    assert(wake_up().len() == 2);
}

/// Replaying a single write applies it.
proof fn lemma_replay_one(jobs: Jobs, write: WriteView)
    ensures
        replay(jobs, seq![write]) == apply(jobs, write),
{
    assert(seq![write].drop_last() =~= Seq::<WriteView>::empty());
    assert(replay(jobs, Seq::<WriteView>::empty()) == jobs);
}

/// The writes after a job was offered bring the stored rows up to date.
pub proof fn law_offered_jobs_are_stored(
    before: QueueView,
    row_id: i64,
    job: JobView,
    after: QueueView,
    effects: Effects,
)
    requires
        offered(before, row_id, job, after, Ok::<Effects, TableError>(effects)),
    ensures
        replay(before.jobs, effects@.writes) == after.jobs,
{
    lemma_replay_one(before.jobs, WriteView::Insert { id: row_id, job });
}

/// The writes after a job was handed out bring the stored rows up to date.
pub proof fn law_handed_out_jobs_are_stored(
    before: QueueView,
    now: Timestamp,
    after: QueueView,
    job: Option<AcquiredJob>,
    effects: EffectsView,
)
    requires
        handed_out(before, now, after, job, effects),
    ensures
        replay(before.jobs, effects.writes) == after.jobs,
{
    lemma_next_goes_first(before.jobs, now);
    if job is Some {
        lemma_replay_one(before.jobs, WriteView::MarkRunning { id: job->0.id });
    }
}

/// The writes after a job was removed bring the stored rows up to date.
pub proof fn law_removed_jobs_are_stored(
    before: QueueView,
    id: i64,
    after: QueueView,
    effects: EffectsView,
)
    requires
        removed(before, id, after, effects),
    ensures
        replay(before.jobs, effects.writes) == after.jobs,
{
    lemma_replay_one(before.jobs, WriteView::Delete { id });
}

/// The writes after a job was put back bring the stored rows up to date.
pub proof fn law_jobs_put_back_are_stored(
    before: QueueView,
    id: i64,
    run_after: Timestamp,
    retries: int,
    job_data: Seq<u8>,
    after: QueueView,
    effects: EffectsView,
)
    requires
        put_back(before, id, run_after, retries, job_data, after, effects),
    ensures
        replay(before.jobs, effects.writes) == after.jobs,
{
    lemma_replay_one(before.jobs, WriteView::Reschedule { id, run_after, retries, job_data });
}

/// Offering a job to a queue is one of the operations on its jobs.
pub proof fn law_offering_is_an_operation(
    before: QueueView,
    row_id: i64,
    unique_job_id: Seq<char>,
    run_after: Timestamp,
    job_data: Seq<u8>,
    priority: i64,
    later: QueueView,
    effects: Result<Effects, TableError>,
)
    requires
        offered(
            before,
            row_id,
            JobView::fresh(unique_job_id, run_after, job_data, priority),
            later,
            effects,
        ),
    ensures
        later.jobs == after(
            before.jobs,
            Op::Schedule { id: row_id, unique_job_id, run_after, job_data, priority },
        ),
{
}

/// What a queue does for a worker is one of the operations on its jobs.
pub proof fn law_carrying_out_is_an_operation(
    before: QueueView,
    action: RunAction,
    now: Timestamp,
    later: QueueView,
    event: RunEvent,
    effects: EffectsView,
)
    requires
        carried_out(before, action, now, later, event, effects),
    ensures
        action is Acquire ==> later.jobs == after(before.jobs, Op::Acquire { now }),
        action matches RunAction::Delete { id } ==> later.jobs == after(
            before.jobs,
            Op::Delete { id },
        ),
        action matches RunAction::Reschedule { id, run_after, retries, job_data } ==> later.jobs
            == after(
            before.jobs,
            Op::Retry { id, run_after, retries: retries as int, job_data: job_data@ },
        ),
{
}

/// How many more things can happen to a worker in state `state`.
pub open spec fn steps_left(state: RunState) -> nat {
    match state {
        RunState::Start => 6,
        RunState::Acquiring => 5,
        RunState::Decoding { .. } => 4,
        RunState::Running { .. } => 3,
        RunState::Encoding { .. } => 2,
        RunState::Storing => 1,
        RunState::Finished => 0,
    }
}

/// A worker comes closer to its end with everything that happens to it, and it returns exactly
/// when it is there. The queue is asked for something exactly when the worker goes on to wait for
/// a job or for its outcome to be stored.
pub proof fn law_a_worker_comes_to_an_end(state: RunState, event: RunEvent)
    requires
        can_happen(state, event),
    ensures
        steps_left(run_step(state, event).0) < steps_left(state),
        run_step(state, event).0 is Finished <==> (run_step(state, event).1 is Return || run_step(
            state,
            event,
        ).1 is Fail),
        run_step(state, event).0 is Acquiring || run_step(state, event).0 is Storing
            <==> is_queue_action(run_step(state, event).1),
{
}

/// A worker returns `true` only once an outcome was stored, and `false` only when there was no
/// job to run. A step that fails is always reported.
pub proof fn law_a_worker_returns_what_happened(state: RunState, event: RunEvent)
    requires
        can_happen(state, event),
    ensures
        run_step(state, event).1 == RunAction::Return(true) <==> event is Stored,
        run_step(state, event).1 == RunAction::Return(false) <==> event == RunEvent::Acquired(None),
        event is StepFailed ==> run_step(state, event).1 is Fail,
{
}

/// The state of a worker that has acquired `job`.
pub open spec fn holding(job: AcquiredJob) -> RunState {
    run_step(run_step(RunState::Start, RunEvent::Begin).0, RunEvent::Acquired(Some(job))).0
}

/// The state of a worker that has acquired and decoded `job`, and is about to run it.
pub open spec fn running(job: AcquiredJob) -> RunState {
    run_step(holding(job), RunEvent::Decoded).0
}

/// The jobs of a queue in which a worker acquired the next job at time `now`, and others did
/// something else since.
pub open spec fn meanwhile(jobs: Jobs, now: Timestamp, others: Seq<Op>) -> Jobs {
    after_all(acquire(jobs, now), others)
}

/// Whether `job` is what a worker is handed at time `now`.
pub open spec fn is_handed(jobs: Jobs, now: Timestamp, job: AcquiredJob) -> bool {
    &&& next_job(jobs, now) == Some(job.id)
    &&& job.job_data@ == jobs[job.id].job_data
    &&& job.retries == jobs[job.id].retries
}

/// What a worker was handed is held for it, whatever others do to other jobs.
proof fn lemma_meanwhile(jobs: Jobs, now: Timestamp, job: AcquiredJob, others: Seq<Op>)
    requires
        is_handed(jobs, now, job),
        all_leave_alone(others, job.id),
    ensures
        meanwhile(jobs, now, others).contains_key(job.id),
        meanwhile(jobs, now, others)[job.id] == jobs[job.id].held(),
{
    lemma_next_goes_first(jobs, now);
    lemma_held(acquire(jobs, now), others, job.id);
}

/// A job that runs without an error, or that fails with a fatal one, is removed from the queue,
/// whatever other workers do in the meantime. Then the worker returns `true`.
pub proof fn law_a_finished_job_is_removed(
    jobs: Jobs,
    now: Timestamp,
    job: AcquiredJob,
    others: Seq<Op>,
    event: RunEvent,
)
    requires
        is_handed(jobs, now, job),
        all_leave_alone(others, job.id),
        event == RunEvent::RunSucceeded || event == RunEvent::RunFailed(Failure::Fatal),
    ensures
        can_happen(running(job), event),
        run_step(running(job), event) == (RunState::Storing, RunAction::Delete { id: job.id }),
        run_step(RunState::Storing, RunEvent::Stored).1 == RunAction::Return(true),
        meanwhile(jobs, now, others)[job.id] == jobs[job.id].held(),
        after(meanwhile(jobs, now, others), Op::Delete { id: job.id }) == meanwhile(
            jobs,
            now,
            others,
        ).remove(job.id),
{
    lemma_meanwhile(jobs, now, job, others);
}

/// A job that fails with an error that is not fatal goes back into the queue, whatever is done in
/// the meantime short of removing it: as it was encoded after the failure, with one retry more
/// than when it was handed out, and to be tried again from the time that was chosen for it. It
/// keeps its ID and its priority.
pub proof fn law_a_failed_job_is_put_back(
    jobs: Jobs,
    now: Timestamp,
    job: AcquiredJob,
    others: Seq<Op>,
    at: Timestamp,
    job_data: Vec<u8>,
)
    requires
        is_handed(jobs, now, job),
        none_deletes(others, job.id),
        job.retries < i64::MAX,
    ensures
        ({
            let failed = run_step(running(job), RunEvent::RunFailed(Failure::Retry(at)));
            let encoded = run_step(failed.0, RunEvent::Encoded(job_data));
            &&& failed.1 is Encode
            &&& encoded == (
                RunState::Storing,
                RunAction::Reschedule {
                    id: job.id,
                    run_after: at,
                    retries: (job.retries + 1) as i64,
                    job_data,
                },
            )
            &&& run_step(encoded.0, RunEvent::Stored).1 == RunAction::Return(true)
        }),
        ({
            let put_back = after(
                meanwhile(jobs, now, others),
                Op::Retry {
                    id: job.id,
                    run_after: at,
                    retries: job.retries + 1,
                    job_data: job_data@,
                },
            );
            &&& put_back.contains_key(job.id)
            &&& put_back[job.id] == jobs[job.id].retried(at, job.retries + 1, job_data@)
            &&& put_back.remove(job.id) == meanwhile(jobs, now, others).remove(job.id)
        }),
{
    lemma_next_goes_first(jobs, now);
    law_no_job_is_lost(acquire(jobs, now), others, job.id);
    let put_back = retry(
        meanwhile(jobs, now, others),
        job.id,
        at,
        job.retries + 1,
        job_data@,
    );
    assert(put_back[job.id] =~= jobs[job.id].retried(at, job.retries + 1, job_data@));
    assert(put_back.remove(job.id) =~= meanwhile(jobs, now, others).remove(job.id));
}

/// A worker gives up on a job that cannot be decoded, for which there is no time of a next try or
/// no count of it, that cannot be encoded again, or whose outcome cannot be stored. The job stays
/// in the queue and is not handed out again, until a restart puts it back.
pub proof fn law_a_job_that_gets_stuck_waits_for_a_restart(
    jobs: Jobs,
    now: Timestamp,
    job: AcquiredJob,
    others: Seq<Op>,
    later: Timestamp,
)
    requires
        is_handed(jobs, now, job),
        all_leave_alone(others, job.id),
    ensures
        forall|state: RunState|
            can_happen(state, RunEvent::StepFailed) ==> #[trigger] run_step(
                state,
                RunEvent::StepFailed,
            ) == (RunState::Finished, RunAction::Fail),
        can_happen(holding(job), RunEvent::StepFailed),
        run_step(running(job), RunEvent::RunFailed(Failure::NoRetryTime)) == (
            RunState::Finished,
            RunAction::Fail,
        ),
        job.retries == i64::MAX ==> run_step(
            running(job),
            RunEvent::RunFailed(Failure::Retry(later)),
        ) == (RunState::Finished, RunAction::Fail),
        meanwhile(jobs, now, others)[job.id] == jobs[job.id].held(),
        next_job(meanwhile(jobs, now, others), later) != Some(job.id),
        abort(meanwhile(jobs, now, others)).contains_key(job.id),
        abort(meanwhile(jobs, now, others))[job.id] == jobs[job.id].requeued(),
{
    lemma_meanwhile(jobs, now, job, others);
    lemma_next_goes_first(jobs, now);
    lemma_next_goes_first(meanwhile(jobs, now, others), later);
    assert(abort(meanwhile(jobs, now, others))[job.id] =~= jobs[job.id].requeued());
}

/// A newly scheduled job is due from its time on, and no sooner.
pub proof fn law_a_scheduled_job_is_due_from_its_time_on(
    jobs: Jobs,
    id: i64,
    unique_job_id: Seq<char>,
    run_after: Timestamp,
    job_data: Seq<u8>,
    priority: i64,
    now: Timestamp,
)
    requires
        !holds_unique_id(jobs, unique_job_id),
    ensures
        due_in(
            schedule(jobs, id, JobView::fresh(unique_job_id, run_after, job_data, priority)),
            now,
            id,
        ) <==> run_after.at_or_before(now),
{
}

/// However many workers are started, the monitor is started once: by the first of them, and by
/// none of those that come after it.
pub proof fn law_the_monitor_is_started_once(queue: QueueView)
    ensures
        start_signals(queue).contains(Signal::SpawnMonitor) <==> !queue.monitor_spawned,
        !start_signals(QueueView { monitor_spawned: true, ..queue }).contains(Signal::SpawnMonitor),
        start_signals(queue).last() == Signal::NotifyRunner,
{
    if !queue.monitor_spawned {
        assert(start_signals(queue)[0] == Signal::SpawnMonitor);
    }
}

} // verus!
