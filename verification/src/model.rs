//! What a queue is, mathematically: a map from row identifiers to jobs, and what each operation
//! makes of that map.

use vstd::prelude::*;

use crate::time::Timestamp;

verus! {

/// One job of the queue, apart from its row identifier.
#[verifier::ext_equal]
pub struct JobView {
    pub unique_job_id: Seq<char>,
    pub run_after: Timestamp,
    pub job_data: Seq<u8>,
    pub priority: i64,
    pub retries: int,
    pub is_running: bool,
}

/// The jobs of a queue by row identifier.
pub type Jobs = Map<i64, JobView>;

impl JobView {
    /// A job that was just scheduled: never tried, and waiting for its time.
    pub open spec fn fresh(
        unique_job_id: Seq<char>,
        run_after: Timestamp,
        job_data: Seq<u8>,
        priority: i64,
    ) -> JobView {
        JobView { unique_job_id, run_after, job_data, priority, retries: 0, is_running: false }
    }

    /// Whether the job may be started at time `now`: it is idle, and its time has come.
    pub open spec fn is_due(self, now: Timestamp) -> bool {
        !self.is_running && self.run_after.at_or_before(now)
    }

    /// Whether the job is to be started before `other`: the higher priority goes first, and among
    /// equal priorities the one that has been due for longer.
    pub open spec fn outranks(self, other: JobView) -> bool {
        self.priority > other.priority || (self.priority == other.priority
            && self.run_after.before(other.run_after))
    }

    /// The job while a worker holds it.
    pub open spec fn held(self) -> JobView {
        JobView { is_running: true, ..self }
    }

    /// The job put back without having been finished, one more retry counted.
    pub open spec fn requeued(self) -> JobView {
        JobView { is_running: false, retries: self.retries + 1, ..self }
    }

    /// The job put back after a failure with this retry count, to be tried again from `run_after`
    /// on.
    pub open spec fn retried(
        self,
        run_after: Timestamp,
        retries: int,
        job_data: Seq<u8>,
    ) -> JobView {
        JobView { is_running: false, run_after, retries, job_data, ..self }
    }

    /// Whether one more retry of the job can be counted.
    pub open spec fn can_retry(self) -> bool {
        self.retries < i64::MAX
    }
}

/// What holds of every queue: it is finite, and no two jobs share a unique job ID.
pub open spec fn valid(jobs: Jobs) -> bool {
    &&& jobs.dom().finite()
    &&& forall|a: i64, b: i64|
        #![trigger jobs[a], jobs[b]]
        jobs.contains_key(a) && jobs.contains_key(b) && a != b ==> jobs[a].unique_job_id
            != jobs[b].unique_job_id
}

/// Whether some job of the queue has the given unique job ID.
pub open spec fn holds_unique_id(jobs: Jobs, unique_job_id: Seq<char>) -> bool {
    exists|id: i64| jobs.contains_key(id) && #[trigger] jobs[id].unique_job_id == unique_job_id
}

/// Whether `id` is one more than the largest row identifier in use, and at least 1.
pub open spec fn is_next_row_id(jobs: Jobs, id: i64) -> bool {
    &&& 1 <= id
    &&& forall|other: i64| #[trigger] jobs.contains_key(other) ==> other < id
    &&& id == 1 || jobs.contains_key((id - 1) as i64)
}

/// Whether the job in row `id` may be started at time `now`.
pub open spec fn due_in(jobs: Jobs, now: Timestamp, id: i64) -> bool {
    jobs.contains_key(id) && jobs[id].is_due(now)
}

/// Whether some job may be started at time `now`.
pub open spec fn any_due(jobs: Jobs, now: Timestamp) -> bool {
    exists|id: i64| due_in(jobs, now, id)
}

/// The rows of the jobs that may be started at time `now`.
pub open spec fn due_ids(jobs: Jobs, now: Timestamp) -> Set<i64> {
    Set::new(|id: i64| due_in(jobs, now, id))
}

/// Whether the job in row `a` goes before the one in row `b`. Where neither outranks the other,
/// the smaller row identifier goes first.
pub open spec fn goes_before(jobs: Jobs, a: i64, b: i64) -> bool {
    jobs[a].outranks(jobs[b]) || (!jobs[b].outranks(jobs[a]) && a < b)
}

/// Whether the job in row `id` is the one to start at time `now`.
pub open spec fn goes_first(jobs: Jobs, now: Timestamp, id: i64) -> bool {
    &&& due_in(jobs, now, id)
    &&& forall|other: i64|
        #[trigger] due_in(jobs, now, other) && other != id ==> goes_before(jobs, id, other)
}

/// The row of the job to start at time `now`, if any job is due.
pub open spec fn next_job(jobs: Jobs, now: Timestamp) -> Option<i64> {
    if exists|id: i64| goes_first(jobs, now, id) {
        Some(choose|id: i64| goes_first(jobs, now, id))
    } else {
        None
    }
}

/// The queue after the next due job, if there is one, was handed to a worker.
pub open spec fn acquire(jobs: Jobs, now: Timestamp) -> Jobs {
    match next_job(jobs, now) {
        Some(id) => jobs.insert(id, jobs[id].held()),
        None => jobs,
    }
}

/// The queue after every job that was being run was put back.
pub open spec fn abort(jobs: Jobs) -> Jobs {
    Map::new(
        |id: i64| jobs.contains_key(id),
        |id: i64| if jobs[id].is_running { jobs[id].requeued() } else { jobs[id] },
    )
}

/// Whether one more retry of every job that is being run can be counted.
pub open spec fn can_abort(jobs: Jobs) -> bool {
    forall|id: i64|
        #![trigger jobs[id]]
        jobs.contains_key(id) && jobs[id].is_running ==> jobs[id].can_retry()
}

/// The queue without the job in row `id`.
pub open spec fn delete(jobs: Jobs, id: i64) -> Jobs {
    jobs.remove(id)
}

/// The queue after the job in row `id` was put back following a failure, with this retry count.
pub open spec fn retry(
    jobs: Jobs,
    id: i64,
    run_after: Timestamp,
    retries: int,
    job_data: Seq<u8>,
) -> Jobs {
    if jobs.contains_key(id) {
        jobs.insert(id, jobs[id].retried(run_after, retries, job_data))
    } else {
        jobs
    }
}

/// The queue after the job in row `id` was put back following a failure, with one retry more than
/// its row counts.
pub open spec fn reschedule(jobs: Jobs, id: i64, run_after: Timestamp, job_data: Seq<u8>) -> Jobs {
    retry(jobs, id, run_after, jobs[id].retries + 1, job_data)
}

/// The queue after a job was offered to it under row identifier `id`: a job whose unique job ID
/// is in the queue already changes nothing.
pub open spec fn schedule(jobs: Jobs, id: i64, job: JobView) -> Jobs {
    if holds_unique_id(jobs, job.unique_job_id) {
        jobs
    } else {
        jobs.insert(id, job)
    }
}

/// A write that brings the stored rows up to date.
#[verifier::ext_equal]
pub enum WriteView {
    /// Add a row.
    Insert { id: i64, job: JobView },
    /// Mark the row as held by a worker.
    MarkRunning { id: i64 },
    /// Mark the row as idle, with this retry count.
    Requeue { id: i64, retries: int },
    /// Mark the row as idle, with this time, retry count and encoded job.
    Reschedule { id: i64, run_after: Timestamp, retries: int, job_data: Seq<u8> },
    /// Remove the row.
    Delete { id: i64 },
}

/// The stored jobs after one write. A write to a row that is not there does nothing, and neither
/// does an insert whose row identifier or unique job ID is in use.
pub open spec fn apply(jobs: Jobs, write: WriteView) -> Jobs {
    match write {
        WriteView::Insert { id, job } => if jobs.contains_key(id) || holds_unique_id(
            jobs,
            job.unique_job_id,
        ) {
            jobs
        } else {
            jobs.insert(id, job)
        },
        WriteView::MarkRunning { id } => if jobs.contains_key(id) {
            jobs.insert(id, jobs[id].held())
        } else {
            jobs
        },
        WriteView::Requeue { id, retries } => if jobs.contains_key(id) {
            jobs.insert(id, JobView { is_running: false, retries, ..jobs[id] })
        } else {
            jobs
        },
        WriteView::Reschedule { id, run_after, retries, job_data } => if jobs.contains_key(id) {
            jobs.insert(id, jobs[id].retried(run_after, retries, job_data))
        } else {
            jobs
        },
        WriteView::Delete { id } => jobs.remove(id),
    }
}

/// The stored jobs after a series of writes.
pub open spec fn replay(jobs: Jobs, writes: Seq<WriteView>) -> Jobs
    decreases writes.len(),
{
    if writes.len() == 0 {
        jobs
    } else {
        apply(replay(jobs, writes.drop_last()), writes.last())
    }
}

/// Replaying one write more applies it last.
pub proof fn lemma_replay_push(jobs: Jobs, writes: Seq<WriteView>, write: WriteView)
    ensures
        replay(jobs, writes.push(write)) == apply(replay(jobs, writes), write),
{
    assert(writes.push(write).drop_last() =~= writes);
}

/// At most one job goes first, and it is the one that `next_job` names.
pub proof fn lemma_next_job(jobs: Jobs, now: Timestamp, id: i64)
    requires
        goes_first(jobs, now, id),
    ensures
        next_job(jobs, now) == Some(id),
{
    let chosen = choose|other: i64| goes_first(jobs, now, other);
    assert(goes_first(jobs, now, chosen));
    if chosen != id {
        assert(goes_before(jobs, id, chosen));
        assert(goes_before(jobs, chosen, id));
    }
}

} // verus!
