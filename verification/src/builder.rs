//! A builder-style interface for scheduling jobs.

use vstd::prelude::*;

use crate::db::TableError;
use crate::ids::{draw_id, drawn_at_random, is_random_id};
use crate::job::Job;
use crate::model::JobView;
use crate::queue::{offered, AppQueue, Effects};
use crate::time::{read_clock, read_from_clock, Timestamp};

verus! {

/// What a builder has collected.
pub struct BuilderView<J> {
    pub job: J,
    pub id: Seq<char>,
    pub run_after: Timestamp,
    pub priority: i64,
}

impl<J> BuilderView<J> {
    /// What a builder starts from: no priority, and due at once.
    pub open spec fn starting(job: J, id: Seq<char>, now: Timestamp) -> BuilderView<J> {
        BuilderView { job, id, run_after: now, priority: 0 }
    }

    /// The job that the builder puts into the queue, encoded as `job_data`.
    pub open spec fn scheduled(self, job_data: Seq<u8>) -> JobView {
        JobView::fresh(self.id, self.run_after, job_data, self.priority)
    }
}

/// A builder-style interface for scheduling jobs.
#[derive(Debug)]
pub struct JobBuilder<J: Job> {
    job: J,
    id: String,
    run_after: Timestamp,
    priority: i64,
}

impl<J: Job> View for JobBuilder<J> {
    type V = BuilderView<J>;

    closed spec fn view(&self) -> BuilderView<J> {
        BuilderView {
            job: self.job,
            id: self.id@,
            run_after: self.run_after,
            priority: self.priority,
        }
    }
}

impl<J: Job + Clone> Clone for JobBuilder<J> {
    fn clone(&self) -> (copy: Self)
        ensures
            cloned::<J>(self@.job, copy@.job),
            copy@ == (BuilderView { job: copy@.job, ..self@ }),
    {
        JobBuilder {
            job: self.job.clone(),
            id: self.id.clone(),
            run_after: self.run_after,
            priority: self.priority,
        }
    }
}

impl<J: Job> JobBuilder<J> {
    /// Creates a new job builder, with a random ID and the current time.
    pub fn new(job: J) -> (builder: Self)
        ensures
            exists|id: Seq<char>, now: Timestamp|
                drawn_at_random(id) && is_random_id(id) && read_from_clock(now) && now.in_calendar()
                    && builder@ == #[trigger] BuilderView::<
                    J,
                >::starting(job, id, now),
    {
        let id = draw_id();
        let now = read_clock();
        let ghost text = id@;
        let builder = Self::starting(job, id, now);
        assert(builder@ == BuilderView::<J>::starting(job, text, now));
        builder
    }

    /// Creates a new job builder with the given ID, at time `now`.
    pub fn starting(job: J, id: String, now: Timestamp) -> (builder: Self)
        ensures
            builder@ == BuilderView::<J>::starting(job, id@, now),
    {
        JobBuilder { job, id, run_after: now, priority: 0 }
    }

    /// Sets the ID of the job.
    ///
    /// Set this to a deterministic value to ensure that a job is only scheduled once.
    pub fn id(self, id: String) -> (builder: Self)
        ensures
            builder@ == (BuilderView { id: id@, ..self@ }),
    {
        JobBuilder { job: self.job, id, run_after: self.run_after, priority: self.priority }
    }

    /// Sets the time after which the job is allowed to run.
    ///
    /// This doesn't guarantee execution at that time.
    pub fn run_after(self, run_after: Timestamp) -> (builder: Self)
        ensures
            builder@ == (BuilderView { run_after, ..self@ }),
    {
        JobBuilder { job: self.job, id: self.id, run_after, priority: self.priority }
    }

    /// Changes the priority of the job.
    ///
    /// Jobs that are (over)due will run in order of priority, and then in order of how long the
    /// job has been due.
    ///
    /// A higher number indicates a higher priority. The default priority is 0.
    pub fn priority(self, prio: i64) -> (builder: Self)
        ensures
            builder@ == (BuilderView { priority: prio, ..self@ }),
    {
        JobBuilder { job: self.job, id: self.id, run_after: self.run_after, priority: prio }
    }

    /// The job to be scheduled.
    pub fn job(&self) -> (job: &J)
        ensures
            *job == self@.job,
    {
        &self.job
    }

    /// Takes the builder apart into the ID, the time and the priority of the job.
    pub(crate) fn into_parts(self) -> (parts: (String, Timestamp, i64))
        ensures
            parts.0@ == self@.id,
            parts.1 == self@.run_after,
            parts.2 == self@.priority,
    {
        (self.id, self.run_after, self.priority)
    }

    /// Schedules the job to the queue, encoded as `job_data`, under row identifier `row_id`.
    pub fn schedule(self, app_queue: &mut AppQueue, job_data: Vec<u8>, row_id: i64) -> (effects:
        Result<Effects, TableError>)
        requires
            old(app_queue).wf(),
        ensures
            final(app_queue).wf(),
            offered(
                old(app_queue)@,
                row_id,
                self@.scheduled(job_data@),
                final(app_queue)@,
                effects,
            ),
    {
        app_queue.schedule_job(self, job_data, row_id)
    }
}

} // verus!
