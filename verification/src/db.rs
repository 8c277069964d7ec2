//! The table of jobs.

use vstd::prelude::*;

use crate::model::{
    abort, acquire, any_due, can_abort, delete, due_in, goes_before, goes_first, holds_unique_id,
    is_next_row_id, lemma_next_job, lemma_replay_push, next_job, replay, reschedule, retry,
    schedule, valid, JobView, Jobs, WriteView,
};
use crate::time::Timestamp;

verus! {

/// Why the table refuses an operation.
#[derive(Clone, Copy, Debug, PartialEq, Eq, Structural)]
pub enum TableError {
    /// Two rows share their row identifier or their unique job ID.
    DuplicateRow,
    /// The row identifier for a new job is in use.
    RowIdInUse,
    /// One more retry would not fit the retry counter.
    RetriesExhausted,
}

/// A row of the table.
#[derive(Debug)]
pub struct JobRow {
    /// The row identifier.
    pub id: i64,
    /// The ID under which a job is in the queue at most once.
    pub unique_job_id: String,
    /// The time before which the job is not started.
    pub run_after: Timestamp,
    /// The encoded job.
    pub job_data: Vec<u8>,
    /// The priority of the job, higher ones going first.
    pub priority: i64,
    /// How many times the job was put back.
    pub retries: i64,
    /// Whether a worker holds the job.
    pub is_running: bool,
}

impl View for JobRow {
    type V = JobView;

    open spec fn view(&self) -> JobView {
        JobView {
            unique_job_id: self.unique_job_id@,
            run_after: self.run_after,
            job_data: self.job_data@,
            priority: self.priority,
            retries: self.retries as int,
            is_running: self.is_running,
        }
    }
}

impl Clone for JobRow {
    fn clone(&self) -> (copy: Self)
        ensures
            copy.id == self.id,
            copy@ == self@,
    {
        let job_data = self.job_data.clone();
        assert(job_data@ =~= self.job_data@);
        JobRow {
            id: self.id,
            unique_job_id: self.unique_job_id.clone(),
            run_after: self.run_after,
            job_data,
            priority: self.priority,
            retries: self.retries,
            is_running: self.is_running,
        }
    }
}

/// A job that was handed to a worker.
#[derive(Debug)]
pub struct AcquiredJob {
    pub id: i64,
    pub job_data: Vec<u8>,
    pub retries: i64,
}

/// Whether row identifier `id` occurs in `rows`.
pub open spec fn has_row(rows: Seq<JobRow>, id: i64) -> bool {
    exists|i: int| 0 <= i < rows.len() && (#[trigger] rows[i]).id == id
}

/// A position at which row identifier `id` occurs in `rows`.
pub open spec fn position(rows: Seq<JobRow>, id: i64) -> int {
    choose|i: int| 0 <= i < rows.len() && (#[trigger] rows[i]).id == id
}

/// The jobs in `rows` by row identifier.
pub open spec fn jobs_in(rows: Seq<JobRow>) -> Jobs {
    Map::new(|id: i64| has_row(rows, id), |id: i64| rows[position(rows, id)]@)
}

/// Whether no two rows share their row identifier or their unique job ID.
pub open spec fn rows_distinct(rows: Seq<JobRow>) -> bool {
    forall|i: int, j: int|
        0 <= i < j < rows.len() ==> (#[trigger] rows[i]).id != (#[trigger] rows[j]).id
            && rows[i].unique_job_id@ != rows[j].unique_job_id@
}

/// The table of jobs: rows in which neither a row identifier nor a unique job ID occurs twice.
#[derive(Debug)]
pub struct JobTable {
    rows: Vec<JobRow>,
}

impl View for JobTable {
    type V = Jobs;

    closed spec fn view(&self) -> Jobs {
        jobs_in(self.rows@)
    }
}

/// A write that brings the stored rows up to date with the table.
#[derive(Debug)]
pub enum Write {
    /// Add a row.
    Insert { row: JobRow },
    /// Mark the row as held by a worker.
    MarkRunning { id: i64 },
    /// Mark the row as idle, with this retry count.
    Requeue { id: i64, retries: i64 },
    /// Mark the row as idle, with this time, retry count and encoded job.
    Reschedule { id: i64, run_after: Timestamp, retries: i64, job_data: Vec<u8> },
    /// Remove the row.
    Delete { id: i64 },
}

impl View for Write {
    type V = WriteView;

    open spec fn view(&self) -> WriteView {
        match *self {
            Write::Insert { row } => WriteView::Insert { id: row.id, job: row@ },
            Write::MarkRunning { id } => WriteView::MarkRunning { id },
            Write::Requeue { id, retries } => WriteView::Requeue { id, retries: retries as int },
            Write::Reschedule { id, run_after, retries, job_data } => WriteView::Reschedule {
                id,
                run_after,
                retries: retries as int,
                job_data: job_data@,
            },
            Write::Delete { id } => WriteView::Delete { id },
        }
    }
}

/// The views of a series of writes.
pub open spec fn views(writes: Seq<Write>) -> Seq<WriteView> {
    Seq::new(writes.len(), |i: int| writes[i]@)
}

/// In distinct rows each row is found under its identifier, and only rows are found.
proof fn lemma_jobs_in(rows: Seq<JobRow>)
    requires
        rows_distinct(rows),
    ensures
        forall|i: int|
            #![trigger rows[i]]
            0 <= i < rows.len() ==> jobs_in(rows).contains_key(rows[i].id) && jobs_in(
                rows,
            )[rows[i].id] == rows[i]@,
        forall|id: i64| #[trigger] jobs_in(rows).contains_key(id) ==> has_row(rows, id),
{
    assert forall|i: int| #![trigger rows[i]] 0 <= i < rows.len() implies jobs_in(
        rows,
    ).contains_key(rows[i].id) && jobs_in(rows)[rows[i].id] == rows[i]@ by {
        let p = position(rows, rows[i].id);
        assert(has_row(rows, rows[i].id));
        assert(0 <= p < rows.len() && rows[p].id == rows[i].id);
        if p < i {
        } else if i < p {
        }
    }
}

/// Changing one of distinct rows, but neither of its identifiers, changes the job under its
/// row identifier and no other.
proof fn lemma_set_row(rows: Seq<JobRow>, i: int, row: JobRow)
    requires
        rows_distinct(rows),
        0 <= i < rows.len(),
        row.id == rows[i].id,
        row.unique_job_id@ == rows[i].unique_job_id@,
    ensures
        rows_distinct(rows.update(i, row)),
        jobs_in(rows.update(i, row)) == jobs_in(rows).insert(row.id, row@),
{
    let after = rows.update(i, row);
    assert(rows_distinct(after));
    lemma_jobs_in(rows);
    lemma_jobs_in(after);
    let left = jobs_in(after);
    let right = jobs_in(rows).insert(row.id, row@);
    assert forall|id: i64| left.contains_key(id) <==> right.contains_key(id) by {
        if left.contains_key(id) {
            let k = position(after, id);
            assert(after[k].id == id);
            assert(rows[k].id == id);
        }
        if right.contains_key(id) {
            if id == row.id {
                assert(after[i].id == id);
            } else {
                let k = position(rows, id);
                assert(rows[k].id == id);
                assert(after[k].id == id);
            }
        }
    }
    assert forall|id: i64| left.contains_key(id) implies left[id] == right[id] by {
        let k = position(after, id);
        assert(after[k].id == id);
        if k != i {
            assert(rows[k].id == id);
            assert(rows[i].id != rows[k].id);
        }
    }
    assert(left =~= right);
}

/// Removing one of distinct rows removes the job under its row identifier and no other.
proof fn lemma_remove_row(rows: Seq<JobRow>, i: int)
    requires
        rows_distinct(rows),
        0 <= i < rows.len(),
    ensures
        rows_distinct(rows.remove(i)),
        jobs_in(rows.remove(i)) == jobs_in(rows).remove(rows[i].id),
{
    let after = rows.remove(i);
    assert forall|a: int, b: int| 0 <= a < b < after.len() implies (#[trigger] after[a]).id != (
    #[trigger] after[b]).id && after[a].unique_job_id@ != after[b].unique_job_id@ by {
        let c = if a < i { a } else { a + 1 };
        let d = if b < i { b } else { b + 1 };
        assert(after[a] == rows[c] && after[b] == rows[d]);
    }
    lemma_jobs_in(rows);
    lemma_jobs_in(after);
    let left = jobs_in(after);
    let right = jobs_in(rows).remove(rows[i].id);
    assert forall|id: i64| left.contains_key(id) <==> right.contains_key(id) by {
        if left.contains_key(id) {
            let k = position(after, id);
            assert(after[k].id == id);
            let c = if k < i { k } else { k + 1 };
            assert(rows[c].id == id);
            assert(rows[c].id != rows[i].id);
        }
        if right.contains_key(id) {
            let k = position(rows, id);
            assert(rows[k].id == id);
            let c = if k < i { k } else { k - 1 };
            assert(after[c].id == id);
        }
    }
    assert forall|id: i64| left.contains_key(id) implies left[id] == right[id] by {
        let k = position(after, id);
        assert(after[k].id == id);
        let c = if k < i { k } else { k + 1 };
        assert(rows[c].id == id);
    }
    assert(left =~= right);
}

/// Adding a row with new identifiers to distinct rows adds its job and changes no other.
proof fn lemma_push_row(rows: Seq<JobRow>, row: JobRow)
    requires
        rows_distinct(rows),
        !jobs_in(rows).contains_key(row.id),
        !holds_unique_id(jobs_in(rows), row.unique_job_id@),
    ensures
        rows_distinct(rows.push(row)),
        jobs_in(rows.push(row)) == jobs_in(rows).insert(row.id, row@),
{
    let after = rows.push(row);
    lemma_jobs_in(rows);
    assert forall|a: int, b: int| 0 <= a < b < after.len() implies (#[trigger] after[a]).id != (
    #[trigger] after[b]).id && after[a].unique_job_id@ != after[b].unique_job_id@ by {
        assert(after[a] == rows[a]);
        if b < rows.len() {
            assert(after[b] == rows[b]);
        } else {
            assert(jobs_in(rows)[rows[a].id].unique_job_id == rows[a].unique_job_id@);
        }
    }
    lemma_jobs_in(after);
    let left = jobs_in(after);
    let right = jobs_in(rows).insert(row.id, row@);
    assert forall|id: i64| left.contains_key(id) <==> right.contains_key(id) by {
        if left.contains_key(id) {
            let k = position(after, id);
            assert(after[k].id == id);
            if k < rows.len() {
                assert(rows[k].id == id);
            }
        }
        if right.contains_key(id) {
            if id == row.id {
                assert(after[rows.len() as int].id == id);
            } else {
                let k = position(rows, id);
                assert(rows[k].id == id);
                assert(after[k].id == id);
            }
        }
    }
    assert forall|id: i64| left.contains_key(id) implies left[id] == right[id] by {
        let k = position(after, id);
        assert(after[k].id == id);
        if k < rows.len() {
            assert(rows[k].id == id);
        }
    }
    assert(left =~= right);
}

/// The views of one write more.
proof fn lemma_views_push(writes: Seq<Write>, write: Write)
    ensures
        views(writes.push(write)) == views(writes).push(write@),
{
    assert(views(writes.push(write)) =~= views(writes).push(write@));
}

impl JobRow {
    /// Whether this row goes before `other` when both are due.
    fn goes_before(&self, other: &JobRow) -> (earlier: bool)
        ensures
            earlier == (self@.outranks(other@) || (!other@.outranks(self@) && self.id < other.id)),
    {
        if self.priority != other.priority {
            self.priority > other.priority
        } else if self.run_after.is_before(&other.run_after) {
            true
        } else if other.run_after.is_before(&self.run_after) {
            false
        } else {
            self.id < other.id
        }
    }
}

impl JobTable {
    /// The invariant of the table.
    pub closed spec fn wf(&self) -> bool {
        rows_distinct(self.rows@)
    }

    /// The jobs of a table are a valid queue.
    pub proof fn lemma_valid(&self)
        requires
            self.wf(),
        ensures
            valid(self@),
    {
        let rows = self.rows@;
        lemma_jobs_in(rows);
        let ids = rows.map_values(|row: JobRow| row.id);
        assert forall|id: i64| self@.contains_key(id) implies ids.to_set().contains(id) by {
            let k = position(rows, id);
            assert(rows[k].id == id);
            assert(ids[k] == id);
        }
        vstd::seq_lib::seq_to_set_is_finite(ids);
        vstd::set_lib::lemma_len_subset(self@.dom(), ids.to_set());
        assert forall|a: i64, b: i64|
            #![trigger self@[a], self@[b]]
            self@.contains_key(a) && self@.contains_key(b) && a != b implies self@[a].unique_job_id
            != self@[b].unique_job_id by {
            let i = position(rows, a);
            let j = position(rows, b);
            assert(rows[i].id == a && rows[j].id == b);
            if i < j {
                assert(rows[i].unique_job_id@ != rows[j].unique_job_id@);
            } else {
                assert(rows[j].unique_job_id@ != rows[i].unique_job_id@);
            }
        }
    }

    /// A table of the given rows, unless two of them share an identifier.
    pub fn from_rows(rows: Vec<JobRow>) -> (table: Result<JobTable, TableError>)
        ensures
            match table {
                Ok(table) => rows_distinct(rows@) && table.wf() && table@ == jobs_in(rows@),
                Err(error) => !rows_distinct(rows@) && error == TableError::DuplicateRow,
            },
    {
        let mut j: usize = 0;
        while j < rows.len()
            invariant
                j <= rows.len(),
                rows_distinct(rows@.take(j as int)),
            decreases rows.len() - j,
        {
            let mut i: usize = 0;
            while i < j
                invariant
                    i <= j < rows.len(),
                    forall|k: int|
                        #![trigger rows@[k]]
                        0 <= k < i ==> rows@[k].id != rows@[j as int].id
                            && rows@[k].unique_job_id@ != rows@[j as int].unique_job_id@,
                decreases j - i,
            {
                if rows[i].id == rows[j].id || rows[i].unique_job_id == rows[j].unique_job_id {
                    assert(!rows_distinct(rows@));
                    return Err(TableError::DuplicateRow);
                }
                i += 1;
            }
            assert forall|a: int, b: int| 0 <= a < b < j + 1 implies (#[trigger] rows@.take(
                j + 1,
            )[a]).id != (#[trigger] rows@.take(j + 1)[b]).id && rows@.take(
                j + 1,
            )[a].unique_job_id@ != rows@.take(j + 1)[b].unique_job_id@ by {
                if b < j {
                    assert(rows@.take(j as int)[a].id != rows@.take(j as int)[b].id);
                }
            }
            j += 1;
        }
        assert(rows@.take(j as int) =~= rows@);
        Ok(JobTable { rows })
    }

    /// The rows of the table.
    pub fn rows(&self) -> (rows: &Vec<JobRow>)
        requires
            self.wf(),
        ensures
            rows_distinct(rows@),
            jobs_in(rows@) == self@,
    {
        &self.rows
    }

    /// Puts every job back that is marked as running, and counts one more retry of it.
    ///
    /// If that would overflow the retry count of one of them, the table is left as it was.
    pub fn abort_jobs(&mut self) -> (writes: Result<Vec<Write>, TableError>)
        requires
            old(self).wf(),
        ensures
            final(self).wf(),
            match writes {
                Ok(writes) => {
                    &&& can_abort(old(self)@)
                    &&& final(self)@ == abort(old(self)@)
                    &&& replay(old(self)@, views(writes@)) == final(self)@
                    &&& forall|k: int|
                        0 <= k < writes@.len() ==> (#[trigger] views(writes@)[k] matches
                            WriteView::Requeue { id, retries } && old(self)@.contains_key(id)
                            && old(self)@[id].is_running && retries == old(self)@[id].retries + 1)
                },
                Err(error) => {
                    &&& !can_abort(old(self)@)
                    &&& error == TableError::RetriesExhausted
                    &&& final(self)@ == old(self)@
                },
            },
    {
        let ghost before = self.rows@;
        let ghost jobs = self@;
        proof {
            lemma_jobs_in(before);
        }
        let mut i: usize = 0;
        while i < self.rows.len()
            invariant
                self.rows@ == before,
                rows_distinct(before),
                before == old(self).rows@,
                jobs == old(self)@,
                i <= before.len(),
                forall|k: int|
                    #![trigger before[k]]
                    0 <= k < before.len() ==> jobs.contains_key(before[k].id)
                        && jobs[before[k].id] == before[k]@,
                forall|k: int|
                    #![trigger before[k]]
                    0 <= k < i && before[k].is_running ==> before[k]@.can_retry(),
            decreases before.len() - i,
        {
            if self.rows[i].is_running && self.rows[i].retries == i64::MAX {
                proof {
                    assert(jobs[before[i as int].id] == before[i as int]@);
                }
                return Err(TableError::RetriesExhausted);
            }
            i += 1;
        }
        assert(can_abort(jobs)) by {
            assert forall|id: i64|
                #![trigger jobs[id]]
                jobs.contains_key(id) && jobs[id].is_running implies jobs[id].can_retry() by {
                let k = position(before, id);
                assert(before[k].id == id);
            }
        }
        let mut writes: Vec<Write> = Vec::new();
        let mut i: usize = 0;
        assert(views(writes@) =~= Seq::empty());
        while i < self.rows.len()
            invariant
                i <= before.len(),
                self.rows@.len() == before.len(),
                rows_distinct(self.rows@),
                rows_distinct(before),
                jobs == jobs_in(before),
                forall|k: int|
                    #![trigger before[k]]
                    0 <= k < before.len() ==> jobs.contains_key(before[k].id)
                        && jobs[before[k].id] == before[k]@,
                forall|k: int|
                    #![trigger before[k]]
                    0 <= k < before.len() && before[k].is_running ==> before[k]@.can_retry(),
                forall|k: int|
                    #![trigger self.rows@[k]]
                    #![trigger before[k]]
                    0 <= k < before.len() ==> self.rows@[k].id == before[k].id && self.rows@[k]@
                        == (if k < i && before[k].is_running {
                        before[k]@.requeued()
                    } else {
                        before[k]@
                    }),
                replay(jobs, views(writes@)) == jobs_in(self.rows@),
                forall|k: int|
                    0 <= k < writes@.len() ==> (#[trigger] views(writes@)[k] matches
                        WriteView::Requeue { id, retries } && jobs.contains_key(id)
                        && jobs[id].is_running && retries == jobs[id].retries + 1),
            decreases before.len() - i,
        {
            if self.rows[i].is_running {
                let ghost rows = self.rows@;
                let ghost written = writes@;
                let id = self.rows[i].id;
                let retries = self.rows[i].retries + 1;
                self.rows[i].is_running = false;
                self.rows[i].retries = retries;
                writes.push(Write::Requeue { id, retries });
                proof {
                    assert(before[i as int].id == id);
                    lemma_jobs_in(rows);
                    assert(rows[i as int].id == id);
                    lemma_set_row(rows, i as int, self.rows@[i as int]);
                    assert(self.rows@ =~= rows.update(i as int, self.rows@[i as int]));
                    lemma_views_push(written, Write::Requeue { id, retries });
                    lemma_replay_push(jobs, views(written), Write::Requeue { id, retries }@);
                    assert(self.rows@[i as int]@ =~= before[i as int]@.requeued());
                }
            }
            i += 1;
        }
        proof {
            lemma_jobs_in(self.rows@);
            let after = self.rows@;
            assert forall|id: i64| jobs_in(after).contains_key(id) <==> jobs.contains_key(id) by {
                if jobs_in(after).contains_key(id) {
                    let k = position(after, id);
                    assert(after[k].id == id);
                    assert(before[k].id == id);
                }
                if jobs.contains_key(id) {
                    let k = position(before, id);
                    assert(before[k].id == id);
                    assert(after[k].id == id);
                }
            }
            assert forall|id: i64| jobs.contains_key(id) implies jobs_in(after)[id] == abort(
                jobs,
            )[id] by {
                let k = position(before, id);
                assert(before[k].id == id);
                assert(after[k].id == id);
            }
            assert(jobs_in(after) =~= abort(jobs));
        }
        Ok(writes)
    }

    /// Marks the job that goes first among those due at time `now` as running and hands it out.
    ///
    /// Returns `None` if no job is due.
    pub fn acquire_job(&mut self, now: &Timestamp) -> (acquired: Option<AcquiredJob>)
        requires
            old(self).wf(),
        ensures
            final(self).wf(),
            final(self)@ == acquire(old(self)@, *now),
            match acquired {
                Some(job) => {
                    &&& next_job(old(self)@, *now) == Some(job.id)
                    &&& job.job_data@ == old(self)@[job.id].job_data
                    &&& job.retries == old(self)@[job.id].retries
                },
                None => next_job(old(self)@, *now) is None && !any_due(old(self)@, *now),
            },
    {
        let ghost before = self.rows@;
        let ghost jobs = self@;
        proof {
            lemma_jobs_in(before);
        }
        let mut first: Option<usize> = None;
        let mut i: usize = 0;
        while i < self.rows.len()
            invariant
                self.rows@ == before,
                rows_distinct(before),
                jobs == jobs_in(before),
                i <= before.len(),
                forall|k: int|
                    #![trigger before[k]]
                    0 <= k < before.len() ==> jobs.contains_key(before[k].id)
                        && jobs[before[k].id] == before[k]@,
                match first {
                    Some(f) => {
                        &&& f < i
                        &&& before[f as int]@.is_due(*now)
                        &&& forall|k: int|
                            #![trigger before[k]]
                            0 <= k < i && k != f && before[k]@.is_due(*now) ==> goes_before(
                                jobs,
                                before[f as int].id,
                                before[k].id,
                            )
                    },
                    None => forall|k: int|
                        #![trigger before[k]]
                        0 <= k < i ==> !before[k]@.is_due(*now),
                },
            decreases before.len() - i,
        {
            let row = &self.rows[i];
            if !row.is_running && row.run_after.is_at_or_before(now) {
                let better = match first {
                    Some(f) => row.goes_before(&self.rows[f]),
                    None => true,
                };
                if better {
                    first = Some(i);
                }
            }
            i += 1;
        }
        match first {
            Some(f) => {
                let id = self.rows[f].id;
                let job_data = self.rows[f].job_data.clone();
                let retries = self.rows[f].retries;
                self.rows[f].is_running = true;
                proof {
                    assert(job_data@ =~= before[f as int].job_data@);
                    assert(goes_first(jobs, *now, id)) by {
                        assert forall|other: i64| #[trigger]
                            due_in(jobs, *now, other) && other != id implies goes_before(
                            jobs,
                            id,
                            other,
                        ) by {
                            assert(jobs.contains_key(other));
                            let k = position(before, other);
                            assert(before[k].id == other);
                        }
                    }
                    lemma_next_job(jobs, *now, id);
                    lemma_jobs_in(self.rows@);
                    lemma_set_row(before, f as int, self.rows@[f as int]);
                }
                Some(AcquiredJob { id, job_data, retries })
            },
            None => {
                assert forall|id: i64| !#[trigger] due_in(jobs, *now, id) by {
                    if jobs.contains_key(id) {
                        let k = position(before, id);
                        assert(before[k].id == id);
                    }
                }
                None
            },
        }
    }

    /// Where row identifier `id` occurs.
    fn find(&self, id: i64) -> (found: Option<usize>)
        requires
            self.wf(),
        ensures
            match found {
                Some(i) => i < self.rows@.len() && self.rows@[i as int].id == id,
                None => !self@.contains_key(id),
            },
    {
        let mut i: usize = 0;
        while i < self.rows.len()
            invariant
                i <= self.rows@.len(),
                forall|k: int| #![trigger self.rows@[k]] 0 <= k < i ==> self.rows@[k].id != id,
            decreases self.rows@.len() - i,
        {
            if self.rows[i].id == id {
                return Some(i);
            }
            i += 1;
        }
        proof {
            lemma_jobs_in(self.rows@);
        }
        None
    }

    /// Removes the job in row `id`. Does nothing if there is none.
    pub fn delete_job(&mut self, id: i64)
        requires
            old(self).wf(),
        ensures
            final(self).wf(),
            final(self)@ == delete(old(self)@, id),
    {
        let ghost before = self.rows@;
        match self.find(id) {
            Some(i) => {
                self.rows.remove(i);
                proof {
                    lemma_remove_row(before, i as int);
                }
            },
            None => {
                assert(self@.remove(id) =~= self@);
            },
        }
    }

    /// Puts the job in row `id` back, to be tried again from `run_after` on with `data` as the
    /// encoded job and `retries` as the retry count. Does nothing if there is no such row.
    pub fn retry_job(&mut self, run_after: Timestamp, retries: i64, data: Vec<u8>, id: i64) -> (
    written: Option<Write>)
        requires
            old(self).wf(),
        ensures
            final(self).wf(),
            final(self)@ == retry(old(self)@, id, run_after, retries as int, data@),
            match written {
                Some(write) => {
                    &&& old(self)@.contains_key(id)
                    &&& write@ == (WriteView::Reschedule {
                        id,
                        run_after,
                        retries: retries as int,
                        job_data: data@,
                    })
                },
                None => !old(self)@.contains_key(id),
            },
    {
        let ghost before = self.rows@;
        proof {
            lemma_jobs_in(before);
        }
        match self.find(id) {
            Some(i) => {
                assert(before[i as int].id == id);
                let job_data = data.clone();
                assert(job_data@ =~= data@);
                self.rows[i].is_running = false;
                self.rows[i].run_after = run_after;
                self.rows[i].retries = retries;
                self.rows[i].job_data = data;
                proof {
                    lemma_set_row(before, i as int, self.rows@[i as int]);
                    assert(self.rows@ =~= before.update(i as int, self.rows@[i as int]));
                }
                Some(Write::Reschedule { id, run_after, retries, job_data })
            },
            None => None,
        }
    }

    /// Puts the job in row `id` back, to be tried again from `run_after` on with `data` as the
    /// encoded job, and counts one more retry than its row does. Does nothing if there is no such
    /// row.
    ///
    /// If that would overflow the retry count, the table is left as it was.
    pub fn reschedule_job(&mut self, run_after: Timestamp, data: Vec<u8>, id: i64) -> (written:
        Result<Option<Write>, TableError>)
        requires
            old(self).wf(),
        ensures
            final(self).wf(),
            match written {
                Ok(Some(write)) => {
                    &&& old(self)@.contains_key(id)
                    &&& old(self)@[id].can_retry()
                    &&& final(self)@ == reschedule(old(self)@, id, run_after, data@)
                    &&& write@ == (WriteView::Reschedule {
                        id,
                        run_after,
                        retries: old(self)@[id].retries + 1,
                        job_data: data@,
                    })
                },
                Ok(None) => !old(self)@.contains_key(id) && final(self)@ == old(self)@,
                Err(error) => {
                    &&& old(self)@.contains_key(id)
                    &&& !old(self)@[id].can_retry()
                    &&& error == TableError::RetriesExhausted
                    &&& final(self)@ == old(self)@
                },
            },
    {
        proof {
            lemma_jobs_in(self.rows@);
        }
        match self.find(id) {
            Some(i) => {
                let retries = self.rows[i].retries;
                assert(self@[id] == self.rows@[i as int]@);
                if retries == i64::MAX {
                    return Err(TableError::RetriesExhausted);
                }
                Ok(self.retry_job(run_after, retries + 1, data, id))
            },
            None => Ok(None),
        }
    }

    /// Whether some job is due at time `now`.
    pub fn is_task_pending(&self, now: &Timestamp) -> (pending: bool)
        requires
            self.wf(),
        ensures
            pending == any_due(self@, *now),
    {
        proof {
            lemma_jobs_in(self.rows@);
        }
        let mut i: usize = 0;
        while i < self.rows.len()
            invariant
                i <= self.rows@.len(),
                forall|k: int|
                    #![trigger self.rows@[k]]
                    0 <= k < self.rows@.len() ==> self@.contains_key(self.rows@[k].id)
                        && self@[self.rows@[k].id] == self.rows@[k]@,
                forall|k: int|
                    #![trigger self.rows@[k]]
                    0 <= k < i ==> !self.rows@[k]@.is_due(*now),
            decreases self.rows@.len() - i,
        {
            if !self.rows[i].is_running && self.rows[i].run_after.is_at_or_before(now) {
                assert(due_in(self@, *now, self.rows@[i as int].id));
                return true;
            }
            i += 1;
        }
        assert forall|id: i64| !#[trigger] due_in(self@, *now, id) by {
            if self@.contains_key(id) {
                let k = position(self.rows@, id);
                assert(self.rows@[k].id == id);
            }
        }
        false
    }

    /// The row identifier for a new row: one more than the largest in use, and at least 1.
    ///
    /// Returns `None` if the largest row identifier there is is in use.
    pub fn next_row_id(&self) -> (next: Option<i64>)
        requires
            self.wf(),
        ensures
            match next {
                Some(id) => is_next_row_id(self@, id),
                None => self@.contains_key(i64::MAX),
            },
    {
        proof {
            lemma_jobs_in(self.rows@);
        }
        let mut last: i64 = 0;
        let mut i: usize = 0;
        while i < self.rows.len()
            invariant
                i <= self.rows@.len(),
                forall|k: int|
                    #![trigger self.rows@[k]]
                    0 <= k < self.rows@.len() ==> self@.contains_key(self.rows@[k].id)
                        && self@[self.rows@[k].id] == self.rows@[k]@,
                0 <= last,
                last == 0 || self@.contains_key(last),
                forall|k: int| #![trigger self.rows@[k]] 0 <= k < i ==> self.rows@[k].id <= last,
            decreases self.rows@.len() - i,
        {
            if self.rows[i].id > last {
                last = self.rows[i].id;
            }
            i += 1;
        }
        if last == i64::MAX {
            return None;
        }
        let next: i64 = last + 1;
        assert forall|id: i64| #[trigger] self@.contains_key(id) implies id < next by {
            let k = position(self.rows@, id);
            assert(self.rows@[k].id == id);
        }
        Some(next)
    }

    /// Whether a job with this unique job ID is in the table.
    pub fn contains_unique_id(&self, unique_job_id: &String) -> (present: bool)
        requires
            self.wf(),
        ensures
            present == holds_unique_id(self@, unique_job_id@),
    {
        proof {
            lemma_jobs_in(self.rows@);
        }
        let mut i: usize = 0;
        while i < self.rows.len()
            invariant
                i <= self.rows@.len(),
                forall|k: int|
                    #![trigger self.rows@[k]]
                    0 <= k < self.rows@.len() ==> self@.contains_key(self.rows@[k].id)
                        && self@[self.rows@[k].id] == self.rows@[k]@,
                forall|k: int|
                    #![trigger self.rows@[k]]
                    0 <= k < i ==> self.rows@[k].unique_job_id@ != unique_job_id@,
            decreases self.rows@.len() - i,
        {
            if self.rows[i].unique_job_id == *unique_job_id {
                assert(self@[self.rows@[i as int].id].unique_job_id == unique_job_id@);
                return true;
            }
            i += 1;
        }
        assert forall|id: i64| self@.contains_key(id) implies #[trigger] self@[id].unique_job_id
            != unique_job_id@ by {
            let k = position(self.rows@, id);
            assert(self.rows@[k].id == id);
        }
        false
    }

    /// Adds an idle job under row identifier `id`. Does nothing if a job with this unique job ID
    /// is in the table already.
    pub fn schedule_job(
        &mut self,
        id: i64,
        unique_job_id: String,
        run_after: Timestamp,
        job_data: Vec<u8>,
        job_priority: i64,
    ) -> (written: Result<Option<Write>, TableError>)
        requires
            old(self).wf(),
        ensures
            final(self).wf(),
            ({
                let job = JobView::fresh(unique_job_id@, run_after, job_data@, job_priority);
                match written {
                    Ok(Some(write)) => {
                        &&& !holds_unique_id(old(self)@, unique_job_id@)
                        &&& !old(self)@.contains_key(id)
                        &&& final(self)@ == schedule(old(self)@, id, job)
                        &&& final(self)@.contains_key(id)
                        &&& final(self)@[id].unique_job_id == unique_job_id@
                        &&& final(self)@[id].run_after == run_after
                        &&& final(self)@[id].job_data == job_data@
                        &&& final(self)@[id].priority == job_priority
                        &&& final(self)@[id].retries == 0
                        &&& !final(self)@[id].is_running
                        &&& write@ == (WriteView::Insert { id, job })
                    },
                    Ok(None) => {
                        &&& holds_unique_id(old(self)@, unique_job_id@)
                        &&& final(self)@ == old(self)@
                    },
                    Err(error) => {
                        &&& !holds_unique_id(old(self)@, unique_job_id@)
                        &&& old(self)@.contains_key(id)
                        &&& error == TableError::RowIdInUse
                        &&& final(self)@ == old(self)@
                    },
                }
            }),
    {
        let ghost before = self.rows@;
        if self.contains_unique_id(&unique_job_id) {
            return Ok(None);
        }
        if self.find(id).is_some() {
            proof {
                lemma_jobs_in(before);
            }
            return Err(TableError::RowIdInUse);
        }
        let row = JobRow {
            id,
            unique_job_id,
            run_after,
            job_data,
            priority: job_priority,
            retries: 0,
            is_running: false,
        };
        let copy = row.clone();
        proof {
            lemma_push_row(before, row);
        }
        self.rows.push(row);
        Ok(Some(Write::Insert { row: copy }))
    }
}

} // verus!
