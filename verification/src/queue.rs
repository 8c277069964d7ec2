//! The queue: its table of jobs, and what the outside world is to do after each operation.

use vstd::prelude::*;

use crate::builder::JobBuilder;
use crate::db::{jobs_in, rows_distinct, views, AcquiredJob, JobRow, JobTable, TableError, Write};
use crate::ids::{draw_id, drawn_at_random, is_random_id};
use crate::job::Job;
use crate::model::{
    abort, acquire, any_due, can_abort, delete, holds_unique_id, is_next_row_id, next_job, replay,
    retry, schedule, valid, JobView, Jobs, WriteView,
};
use crate::runner::{RunAction, RunEvent};
use crate::time::{read_clock, read_from_clock, Timestamp};

verus! {

/// What the tasks around the queue are told.
#[derive(Clone, Copy, Debug, PartialEq, Eq, Structural)]
pub enum Signal {
    /// Wake the monitor, or let it pass its next wait.
    NotifyMonitor,
    /// Wake one worker, or let the next one that waits pass.
    NotifyRunner,
    /// Wake every worker that is waiting now.
    WakeWaitingRunners,
    /// Start the monitor task.
    SpawnMonitor,
    /// Start a worker task.
    SpawnWorker,
}

/// What is to be done after an operation on the queue: first the writes, all of them or none,
/// and once they have succeeded the signals.
#[derive(Debug)]
pub struct Effects {
    pub writes: Vec<Write>,
    pub signals: Vec<Signal>,
}

/// What the effects of an operation are.
#[verifier::ext_equal]
pub struct EffectsView {
    pub writes: Seq<WriteView>,
    pub signals: Seq<Signal>,
}

impl View for Effects {
    type V = EffectsView;

    open spec fn view(&self) -> EffectsView {
        EffectsView { writes: views(self.writes@), signals: self.signals@ }
    }
}

/// The state of a queue.
#[verifier::ext_equal]
pub struct QueueView {
    /// The jobs in the queue.
    pub jobs: Jobs,
    /// Whether the monitor task was started.
    pub monitor_spawned: bool,
}

/// What offering `job` to a queue under row identifier `row_id` comes to.
///
/// A job whose unique job ID is in the queue already changes nothing. Any other job is added,
/// unless the row identifier is in use, which is an error. Without an error the monitor is told.
pub open spec fn offered(
    before: QueueView,
    row_id: i64,
    job: JobView,
    after: QueueView,
    effects: Result<Effects, TableError>,
) -> bool {
    let known = holds_unique_id(before.jobs, job.unique_job_id);
    match effects {
        Ok(effects) => {
            &&& known || !before.jobs.contains_key(row_id)
            &&& after == (QueueView { jobs: schedule(before.jobs, row_id, job), ..before })
            &&& effects@.writes == if known {
                Seq::<WriteView>::empty()
            } else {
                seq![WriteView::Insert { id: row_id, job }]
            }
            &&& effects@.signals == seq![Signal::NotifyMonitor]
        },
        Err(error) => {
            &&& !known
            &&& before.jobs.contains_key(row_id)
            &&& error == TableError::RowIdInUse
            &&& after == before
        },
    }
}

/// The signals that wake up all workers.
pub open spec fn wake_up() -> Seq<Signal> {
    seq![Signal::WakeWaitingRunners, Signal::NotifyRunner]
}

/// Central queue interface.
///
/// An operation changes the jobs that the queue holds and says with its [`Effects`] how the
/// stored rows follow and which tasks are told.
#[derive(Debug)]
pub struct AppQueue {
    table: JobTable,
    monitor_spawned: bool,
}

impl View for AppQueue {
    type V = QueueView;

    closed spec fn view(&self) -> QueueView {
        QueueView { jobs: self.table@, monitor_spawned: self.monitor_spawned }
    }
}

impl AppQueue {
    /// The invariant of the queue.
    pub closed spec fn wf(&self) -> bool {
        self.table.wf()
    }

    /// The jobs of a queue are finitely many, and no two of them share a unique job ID.
    pub proof fn lemma_valid(&self)
        requires
            self.wf(),
        ensures
            valid(self@.jobs),
    {
        self.table.lemma_valid();
    }

    /// Opens a queue over the stored rows. Jobs that were being run when the rows were last
    /// written are put back.
    ///
    /// # Errors
    /// This function returns an error if two rows share an identifier, or if the retry count of a
    /// job to be put back would overflow.
    pub fn new(rows: Vec<JobRow>) -> (opened: Result<(AppQueue, Effects), TableError>)
        ensures
            match opened {
                Ok((queue, effects)) => {
                    &&& rows_distinct(rows@)
                    &&& can_abort(jobs_in(rows@))
                    &&& queue.wf()
                    &&& queue@ == (QueueView {
                        jobs: abort(jobs_in(rows@)),
                        monitor_spawned: false,
                    })
                    &&& replay(jobs_in(rows@), effects@.writes) == queue@.jobs
                    &&& forall|k: int|
                        0 <= k < effects@.writes.len() ==> (#[trigger] effects@.writes[k] matches
                            WriteView::Requeue { id, retries } && jobs_in(rows@).contains_key(id)
                            && jobs_in(rows@)[id].is_running && retries == jobs_in(rows@)[id].retries
                            + 1)
                    &&& effects@.signals == Seq::<Signal>::empty()
                },
                Err(TableError::DuplicateRow) => !rows_distinct(rows@),
                Err(TableError::RetriesExhausted) => rows_distinct(rows@) && !can_abort(
                    jobs_in(rows@),
                ),
                Err(TableError::RowIdInUse) => false,
            },
    {
        let table = match JobTable::from_rows(rows) {
            Ok(table) => table,
            Err(error) => return Err(error),
        };
        let mut queue = AppQueue { table, monitor_spawned: false };
        match queue.initialize_db() {
            Ok(effects) => Ok((queue, effects)),
            Err(error) => Err(error),
        }
    }

    /// Puts the jobs back that are marked as running while no worker runs them.
    fn initialize_db(&mut self) -> (effects: Result<Effects, TableError>)
        requires
            old(self).wf(),
        ensures
            final(self).wf(),
            match effects {
                Ok(effects) => {
                    &&& can_abort(old(self)@.jobs)
                    &&& final(self)@ == (QueueView { jobs: abort(old(self)@.jobs), ..old(self)@ })
                    &&& replay(old(self)@.jobs, effects@.writes) == final(self)@.jobs
                    &&& forall|k: int|
                        0 <= k < effects@.writes.len() ==> (#[trigger] effects@.writes[k] matches
                            WriteView::Requeue { id, retries } && old(self)@.jobs.contains_key(id)
                            && old(self)@.jobs[id].is_running && retries
                            == old(self)@.jobs[id].retries + 1)
                    &&& effects@.signals == Seq::<Signal>::empty()
                },
                Err(error) => {
                    &&& !can_abort(old(self)@.jobs)
                    &&& error == TableError::RetriesExhausted
                    &&& final(self)@ == old(self)@
                },
            },
    {
        match self.table.abort_jobs() {
            Ok(writes) => Ok(Effects { writes, signals: Vec::new() }),
            Err(error) => Err(error),
        }
    }

    /// Takes the stored rows over in place of the jobs that the queue holds.
    ///
    /// # Errors
    /// This function returns an error if two rows share an identifier. The queue is then left as
    /// it was.
    pub fn reload(&mut self, rows: Vec<JobRow>) -> (reloaded: Result<(), TableError>)
        requires
            old(self).wf(),
        ensures
            final(self).wf(),
            match reloaded {
                Ok(()) => {
                    &&& rows_distinct(rows@)
                    &&& final(self)@ == (QueueView { jobs: jobs_in(rows@), ..old(self)@ })
                },
                Err(error) => {
                    &&& !rows_distinct(rows@)
                    &&& error == TableError::DuplicateRow
                    &&& final(self)@ == old(self)@
                },
            },
    {
        match JobTable::from_rows(rows) {
            Ok(table) => {
                self.table = table;
                Ok(())
            },
            Err(error) => Err(error),
        }
    }

    /// The rows of the queue.
    pub fn rows(&self) -> (rows: &Vec<JobRow>)
        requires
            self.wf(),
        ensures
            rows_distinct(rows@),
            jobs_in(rows@) == self@.jobs,
    {
        self.table.rows()
    }

    /// The row identifier for a new job: one more than the largest in use, and at least 1.
    ///
    /// Returns `None` if the largest row identifier there is is in use.
    pub fn next_row_id(&self) -> (next: Option<i64>)
        requires
            self.wf(),
        ensures
            match next {
                Some(id) => is_next_row_id(self@.jobs, id),
                None => self@.jobs.contains_key(i64::MAX),
            },
    {
        self.table.next_row_id()
    }

    /// Wakes up all executor tasks.
    fn wake_up_executor_tasks(&self) -> (signals: Vec<Signal>)
        ensures
            signals@ == wake_up(),
    {
        let mut signals: Vec<Signal> = Vec::new();
        signals.push(Signal::WakeWaitingRunners);
        signals.push(Signal::NotifyRunner);
        signals
    }

    /// Hands the job that goes first among those due at time `now` to a worker.
    ///
    /// Returns no job if there are no jobs to run then.
    pub fn acquire_job(&mut self, now: &Timestamp) -> (acquired: (Option<AcquiredJob>, Effects))
        requires
            old(self).wf(),
        ensures
            final(self).wf(),
            handed_out(old(self)@, *now, final(self)@, acquired.0, acquired.1@),
    {
        let job = self.table.acquire_job(now);
        let mut writes: Vec<Write> = Vec::new();
        match &job {
            Some(job) => {
                writes.push(Write::MarkRunning { id: job.id });
            },
            None => {},
        }
        let effects = Effects { writes, signals: Vec::new() };
        proof {
            if job is Some {
                assert(effects@.writes =~= seq![WriteView::MarkRunning { id: job->0.id }]);
            } else {
                assert(effects@.writes =~= Seq::<WriteView>::empty());
            }
        }
        (job, effects)
    }

    /// Removes the job in row `id`, which is done or given up.
    pub fn delete_job(&mut self, id: i64) -> (effects: Effects)
        requires
            old(self).wf(),
        ensures
            final(self).wf(),
            removed(old(self)@, id, final(self)@, effects@),
    {
        self.table.delete_job(id);
        let mut writes: Vec<Write> = Vec::new();
        writes.push(Write::Delete { id });
        let effects = Effects { writes, signals: just(Signal::NotifyMonitor) };
        assert(effects@.writes =~= seq![WriteView::Delete { id }]);
        effects
    }

    /// Puts the job in row `id` back after a failure, to be tried again from `run_after` on with
    /// `job_data` as the encoded job and `retries` as the retry count.
    pub fn reschedule_job(
        &mut self,
        run_after: Timestamp,
        retries: i64,
        job_data: Vec<u8>,
        id: i64,
    ) -> (effects: Effects)
        requires
            old(self).wf(),
        ensures
            final(self).wf(),
            put_back(
                old(self)@,
                id,
                run_after,
                retries as int,
                job_data@,
                final(self)@,
                effects@,
            ),
    {
        let written = self.table.retry_job(run_after, retries, job_data, id);
        Effects { writes: at_most_one(written), signals: just(Signal::NotifyMonitor) }
    }

    /// Carries out an action of a worker that runs a job, and returns what the worker is told.
    pub fn run_job(&mut self, action: RunAction) -> (done: (RunEvent, Effects))
        requires
            old(self).wf(),
            is_queue_action(action),
        ensures
            final(self).wf(),
            exists|now: Timestamp|
                read_from_clock(now) && now.in_calendar() && #[trigger] carried_out(
                    old(self)@,
                    action,
                    now,
                    final(self)@,
                    done.0,
                    done.1@,
                ),
    {
        let now = read_clock();
        let ghost before = self@;
        let done = self.run_job_at(action, &now);
        assert(carried_out(before, action, now, self@, done.0, done.1@));
        done
    }

    /// Carries out an action of a worker that runs a job at time `now`.
    pub fn run_job_at(&mut self, action: RunAction, now: &Timestamp) -> (done: (RunEvent, Effects))
        requires
            old(self).wf(),
            is_queue_action(action),
        ensures
            final(self).wf(),
            carried_out(old(self)@, action, *now, final(self)@, done.0, done.1@),
    {
        match action {
            RunAction::Delete { id } => (RunEvent::Stored, self.delete_job(id)),
            RunAction::Reschedule { id, run_after, retries, job_data } => {
                (RunEvent::Stored, self.reschedule_job(run_after, retries, job_data, id))
            },
            _ => {
                let (job, effects) = self.acquire_job(now);
                (RunEvent::Acquired(job), effects)
            },
        }
    }

    /// What the monitor does when it looks at the queue: if some job is due, wake up all workers.
    pub fn monitor_job(&self) -> (signals: Vec<Signal>)
        requires
            self.wf(),
        ensures
            exists|now: Timestamp|
                read_from_clock(now) && now.in_calendar() && signals@ == #[trigger] monitor_signals(
                    self@.jobs,
                    now,
                ),
    {
        self.monitor_job_at(&read_clock())
    }

    /// What the monitor does when it looks at the queue at time `now`.
    pub fn monitor_job_at(&self, now: &Timestamp) -> (signals: Vec<Signal>)
        requires
            self.wf(),
        ensures
            signals@ == monitor_signals(self@.jobs, *now),
    {
        if self.table.is_task_pending(now) {
            self.wake_up_executor_tasks()
        } else {
            Vec::new()
        }
    }

    /// What a task does before it serves as a worker: start the monitor, unless that was done
    /// before, and let one worker look at the queue.
    pub fn run_job_loop(&mut self) -> (signals: Vec<Signal>)
        requires
            old(self).wf(),
        ensures
            final(self).wf(),
            final(self)@ == (QueueView { monitor_spawned: true, ..old(self)@ }),
            signals@ == start_signals(old(self)@),
    {
        let mut signals: Vec<Signal> = Vec::new();
        if !self.monitor_spawned {
            self.monitor_spawned = true;
            signals.push(Signal::SpawnMonitor);
        }
        signals.push(Signal::NotifyRunner);
        signals
    }

    /// Starts a number of worker tasks for running jobs.
    pub fn run_job_workers(num_workers: usize) -> (signals: Vec<Signal>)
        ensures
            signals@ == spawn_workers(num_workers as nat),
    {
        let mut signals: Vec<Signal> = Vec::new();
        let mut i: usize = 0;
        while i < num_workers
            invariant
                i <= num_workers,
                signals@ == spawn_workers(i as nat),
            decreases num_workers - i,
        {
            signals.push(Signal::SpawnWorker);
            i += 1;
        }
        signals
    }

    /// Starts a default number of worker tasks for running jobs: one for every CPU.
    pub fn run_job_workers_default() -> (signals: Vec<Signal>)
        ensures
            exists|cpus: usize|
                counted_cpus(cpus) && cpus >= 1 && signals@ == #[trigger] spawn_workers(cpus as nat),
    {
        Self::run_job_workers(cpu_count())
    }

    /// Adds the job of a builder to the queue, encoded as `job_data`, under row identifier
    /// `row_id`.
    ///
    /// This will not do anything if a job with the same ID is already in the queue.
    pub fn schedule_job<J: Job>(
        &mut self,
        job: JobBuilder<J>,
        job_data: Vec<u8>,
        row_id: i64,
    ) -> (effects: Result<Effects, TableError>)
        requires
            old(self).wf(),
        ensures
            final(self).wf(),
            offered(old(self)@, row_id, job@.scheduled(job_data@), final(self)@, effects),
            effects is Ok && (forall|other: i64| #[trigger]
                old(self)@.jobs.contains_key(other) ==> old(self)@.jobs[other].unique_job_id
                    != job@.id) ==> {
                &&& final(self)@.jobs.contains_key(row_id)
                &&& final(self)@.jobs[row_id].unique_job_id == job@.id
                &&& final(self)@.jobs[row_id].run_after == job@.run_after
                &&& final(self)@.jobs[row_id].priority == job@.priority
                &&& final(self)@.jobs[row_id].job_data == job_data@
            },
    {
        let (id, run_after, priority) = job.into_parts();
        self.offer(id, run_after, job_data, priority, row_id)
    }

    /// Adds a job to the table, and tells the monitor.
    fn offer(
        &mut self,
        id: String,
        run_after: Timestamp,
        job_data: Vec<u8>,
        priority: i64,
        row_id: i64,
    ) -> (effects: Result<Effects, TableError>)
        requires
            old(self).wf(),
        ensures
            final(self).wf(),
            offered(
                old(self)@,
                row_id,
                JobView::fresh(id@, run_after, job_data@, priority),
                final(self)@,
                effects,
            ),
    {
        match self.table.schedule_job(row_id, id, run_after, job_data, priority) {
            Ok(written) => {
                let effects = Effects {
                    writes: at_most_one(written),
                    signals: just(Signal::NotifyMonitor),
                };
                Ok(effects)
            },
            Err(error) => Err(error),
        }
    }

    /// Adds a job with a specific opaque ID to the queue, encoded as `job_data`, under row
    /// identifier `row_id`. It is due at once.
    ///
    /// This will not do anything if the job is already in the queue.
    pub fn add_unique_job(&mut self, id: String, job_data: Vec<u8>, row_id: i64) -> (effects:
        Result<Effects, TableError>)
        requires
            old(self).wf(),
        ensures
            final(self).wf(),
            exists|now: Timestamp|
                read_from_clock(now) && now.in_calendar() && offered(
                    old(self)@,
                    row_id,
                    #[trigger] JobView::fresh(id@, now, job_data@, 0),
                    final(self)@,
                    effects,
                ),
    {
        self.add_unique_job_at(id, job_data, row_id, read_clock())
    }

    /// Adds a job with a specific opaque ID to the queue at time `now`.
    pub fn add_unique_job_at(
        &mut self,
        id: String,
        job_data: Vec<u8>,
        row_id: i64,
        now: Timestamp,
    ) -> (effects: Result<Effects, TableError>)
        requires
            old(self).wf(),
        ensures
            final(self).wf(),
            offered(
                old(self)@,
                row_id,
                JobView::fresh(id@, now, job_data@, 0),
                final(self)@,
                effects,
            ),
    {
        self.offer(id, now, job_data, 0, row_id)
    }

    /// Adds a job to the queue, encoded as `job_data`, under row identifier `row_id`.
    ///
    /// Unlike [`AppQueue::add_unique_job`], this will use a random ID.
    pub fn add_job(&mut self, job_data: Vec<u8>, row_id: i64) -> (effects: Result<
        Effects,
        TableError,
    >)
        requires
            old(self).wf(),
        ensures
            final(self).wf(),
            exists|id: Seq<char>, now: Timestamp|
                drawn_at_random(id) && is_random_id(id) && read_from_clock(now)
                    && now.in_calendar() && offered(
                    old(self)@,
                    row_id,
                    #[trigger] JobView::fresh(id, now, job_data@, 0),
                    final(self)@,
                    effects,
                ),
    {
        let id = draw_id();
        self.add_unique_job(id, job_data, row_id)
    }
}

/// What handing out the next job at time `now` comes to.
pub open spec fn handed_out(
    before: QueueView,
    now: Timestamp,
    after: QueueView,
    job: Option<AcquiredJob>,
    effects: EffectsView,
) -> bool {
    &&& after == (QueueView { jobs: acquire(before.jobs, now), ..before })
    &&& effects.signals == Seq::<Signal>::empty()
    &&& match job {
        Some(job) => {
            &&& next_job(before.jobs, now) == Some(job.id)
            &&& job.job_data@ == before.jobs[job.id].job_data
            &&& job.retries == before.jobs[job.id].retries
            &&& effects.writes == seq![WriteView::MarkRunning { id: job.id }]
        },
        None => {
            &&& next_job(before.jobs, now) is None
            &&& !any_due(before.jobs, now)
            &&& effects.writes == Seq::<WriteView>::empty()
        },
    }
}

/// What removing the job in row `id` comes to: it is gone, and the monitor is told.
pub open spec fn removed(before: QueueView, id: i64, after: QueueView, effects: EffectsView) -> bool {
    &&& after == (QueueView { jobs: delete(before.jobs, id), ..before })
    &&& effects.writes == seq![WriteView::Delete { id }]
    &&& effects.signals == seq![Signal::NotifyMonitor]
}

/// What putting the job in row `id` back after a failure comes to: it waits with the given
/// contents, and the monitor is told. A job that is no longer in the queue stays away.
pub open spec fn put_back(
    before: QueueView,
    id: i64,
    run_after: Timestamp,
    retries: int,
    job_data: Seq<u8>,
    after: QueueView,
    effects: EffectsView,
) -> bool {
    &&& after == (QueueView {
        jobs: retry(before.jobs, id, run_after, retries, job_data),
        ..before
    })
    &&& effects.writes == if before.jobs.contains_key(id) {
        seq![WriteView::Reschedule { id, run_after, retries, job_data }]
    } else {
        Seq::<WriteView>::empty()
    }
    &&& effects.signals == seq![Signal::NotifyMonitor]
}

/// Whether the queue carries out this action of a worker, rather than the worker itself.
pub open spec fn is_queue_action(action: RunAction) -> bool {
    action is Acquire || action is Delete || action is Reschedule
}

/// What carrying out an action of a worker at time `now` comes to, and what the worker is told.
pub open spec fn carried_out(
    before: QueueView,
    action: RunAction,
    now: Timestamp,
    after: QueueView,
    event: RunEvent,
    effects: EffectsView,
) -> bool {
    match action {
        RunAction::Acquire => {
            &&& event matches RunEvent::Acquired(job)
            &&& handed_out(before, now, after, job, effects)
        },
        RunAction::Delete { id } => {
            &&& event is Stored
            &&& removed(before, id, after, effects)
        },
        RunAction::Reschedule { id, run_after, retries, job_data } => {
            &&& event is Stored
            &&& put_back(before, id, run_after, retries as int, job_data@, after, effects)
        },
        _ => false,
    }
}

/// The signals of the monitor that looks at `jobs` at time `now`.
pub open spec fn monitor_signals(jobs: Jobs, now: Timestamp) -> Seq<Signal> {
    if any_due(jobs, now) {
        wake_up()
    } else {
        Seq::empty()
    }
}

/// The signals of a task that starts to serve as a worker.
pub open spec fn start_signals(queue: QueueView) -> Seq<Signal> {
    if queue.monitor_spawned {
        seq![Signal::NotifyRunner]
    } else {
        seq![Signal::SpawnMonitor, Signal::NotifyRunner]
    }
}

/// The signals that start a number of workers.
pub open spec fn spawn_workers(num_workers: nat) -> Seq<Signal> {
    Seq::new(num_workers, |i: int| Signal::SpawnWorker)
}

/// The number of CPUs, as `num_cpus::get` counts them.
///
/// What is believed of it: there is at least one. The number depends on the machine.
#[verifier::external_body]
pub(crate) fn cpu_count() -> (cpus: usize)
    ensures
        cpus >= 1,
{
    num_cpus::get()
}

/// Whether `cpus` is what counting the CPUs gave. No other number is known to be.
pub closed spec fn counted_cpus(cpus: usize) -> bool {
    call_ensures(cpu_count, (), cpus)
}

/// Only what counting the CPUs gave counts as such, and there is at least one.
pub(crate) proof fn law_cpus_are_counted(cpus: usize)
    ensures
        counted_cpus(cpus) <==> call_ensures(cpu_count, (), cpus),
        counted_cpus(cpus) ==> cpus >= 1,
{
}

/// One signal alone.
fn just(signal: Signal) -> (signals: Vec<Signal>)
    ensures
        signals@ == seq![signal],
{
    let mut signals: Vec<Signal> = Vec::new();
    signals.push(signal);
    signals
}

/// A write, if there is one.
fn at_most_one(write: Option<Write>) -> (writes: Vec<Write>)
    ensures
        views(writes@) == match write {
            Some(write) => seq![write@],
            None => Seq::<WriteView>::empty(),
        },
{
    let mut writes: Vec<Write> = Vec::new();
    match write {
        Some(write) => {
            writes.push(write);
            assert(views(writes@) =~= seq![write@]);
        },
        None => {
            assert(views(writes@) =~= Seq::<WriteView>::empty());
        },
    }
    writes
}

} // verus!
