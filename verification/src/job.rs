//! Jobs: the IPP job state machine and the in-memory job registry with
//! monotonic job ids.

use vstd::prelude::*;

use crate::flags::PrinterReason;
use crate::text::str_eq;

verus! {

/// Job identifier, allocated monotonically from 1.
pub type JobId = u32;

/// IPP `job-state` (RFC 8011 §5.3.7).
#[derive(Debug, Clone, Copy, PartialEq, Eq, Structural)]
pub enum JobState {
    Pending,
    PendingHeld,
    Processing,
    ProcessingStopped,
    Canceled,
    Aborted,
    Completed,
}

/// The RFC 8011 enum value of a job state (3 through 9).
pub open spec fn job_state_code(s: JobState) -> i32 {
    match s {
        JobState::Pending => 3,
        JobState::PendingHeld => 4,
        JobState::Processing => 5,
        JobState::ProcessingStopped => 6,
        JobState::Canceled => 7,
        JobState::Aborted => 8,
        JobState::Completed => 9,
    }
}

/// A job that has finished: canceled, aborted or completed.
pub open spec fn is_terminal(s: JobState) -> bool {
    s == JobState::Canceled || s == JobState::Aborted || s == JobState::Completed
}

impl JobState {
    /// The RFC 8011 enum value.
    pub fn code(&self) -> (r: i32)
        ensures
            r == job_state_code(*self),
    {
        match self {
            JobState::Pending => 3,
            JobState::PendingHeld => 4,
            JobState::Processing => 5,
            JobState::ProcessingStopped => 6,
            JobState::Canceled => 7,
            JobState::Aborted => 8,
            JobState::Completed => 9,
        }
    }

    /// Whether the job has finished (canceled, aborted or completed).
    pub fn is_terminal(&self) -> (r: bool)
        ensures
            r == is_terminal(*self),
    {
        match self {
            JobState::Canceled | JobState::Aborted | JobState::Completed => true,
            _ => false,
        }
    }
}

/// One job of the registry.
#[derive(Debug, Clone)]
pub struct JobRecord {
    pub id: JobId,
    /// Logical name of the printer the job was submitted to.
    pub printer: String,
    /// `requesting-user-name` of the submitter.
    pub owner: String,
    pub state: JobState,
    /// Reasons reported by a failed attempt.
    pub reasons: PrinterReason,
    /// `job-state-message`; empty when there is none.
    pub message: String,
    /// Printer up-time (seconds) when the job was created.
    pub created: i32,
    /// Printer up-time (seconds) when the job reached a terminal state.
    pub completed: Option<i32>,
}

/// Mathematical view of a [`JobRecord`].
pub struct JobRecordV {
    pub id: JobId,
    pub printer: Seq<char>,
    pub owner: Seq<char>,
    pub state: JobState,
    pub reasons: u32,
    pub message: Seq<char>,
    pub created: i32,
    pub completed: Option<i32>,
}

impl View for JobRecord {
    type V = JobRecordV;

    open spec fn view(&self) -> JobRecordV {
        JobRecordV {
            id: self.id,
            printer: self.printer@,
            owner: self.owner@,
            state: self.state,
            reasons: self.reasons.0,
            message: self.message@,
            created: self.created,
            completed: self.completed,
        }
    }
}

impl JobRecord {
    /// A copy of the record.
    pub fn duplicate(&self) -> (r: JobRecord)
        ensures
            r@ == self@,
    {
        JobRecord {
            id: self.id,
            printer: self.printer.clone(),
            owner: self.owner.clone(),
            state: self.state,
            reasons: self.reasons,
            message: self.message.clone(),
            created: self.created,
            completed: self.completed,
        }
    }

    /// `time-at-creation`: printer up-time when the job was created.
    pub fn created_secs(&self) -> (r: i32)
        ensures
            r == self.created,
    {
        self.created
    }

    /// `time-at-completed`: printer up-time when the job finished, if it has.
    pub fn completed_secs(&self) -> (r: Option<i32>)
        ensures
            r == self.completed,
    {
        self.completed
    }
}

/// The views of a sequence of job records.
pub open spec fn jobs_view(s: Seq<JobRecord>) -> Seq<JobRecordV> {
    s.map_values(|j: JobRecord| j@)
}

/// Index of the job with id `id`, if any.
pub open spec fn job_index(jobs: Seq<JobRecordV>, id: JobId) -> Option<int> {
    if exists|i: int| 0 <= i < jobs.len() && jobs[i].id == id {
        Some(choose|i: int| 0 <= i < jobs.len() && jobs[i].id == id)
    } else {
        None
    }
}

/// The job with id `id`, if any.
pub open spec fn find_job(jobs: Seq<JobRecordV>, id: JobId) -> Option<JobRecordV> {
    match job_index(jobs, id) {
        Some(i) => Some(jobs[i]),
        None => None,
    }
}

/// Job `id` reads back canceled.
pub open spec fn is_canceled_in(jobs: Seq<JobRecordV>, id: JobId) -> bool {
    find_job(jobs, id) matches Some(j) && j.state == JobState::Canceled
}

/// `jobs` with the job `id` replaced by `f` of it.
pub open spec fn update_job(
    jobs: Seq<JobRecordV>,
    id: JobId,
    f: spec_fn(JobRecordV) -> JobRecordV,
) -> Seq<JobRecordV> {
    jobs.map_values(|j: JobRecordV| if j.id == id { f(j) } else { j })
}

/// A job moved to `state`; entering a terminal state records the time.
pub open spec fn with_state(j: JobRecordV, state: JobState, now: i32) -> JobRecordV {
    JobRecordV {
        state,
        completed: if is_terminal(state) {
            Some(now)
        } else {
            j.completed
        },
        ..j
    }
}

/// A job aborted by a permanent failure.
pub open spec fn with_failure(
    j: JobRecordV,
    reasons: u32,
    message: Seq<char>,
    now: i32,
) -> JobRecordV {
    JobRecordV { state: JobState::Aborted, reasons, message, completed: Some(now), ..j }
}

/// `jobs` with every unfinished job of `printer` canceled at `now`.
pub open spec fn cancel_unfinished(jobs: Seq<JobRecordV>, printer: Seq<char>, now: i32) -> Seq<
    JobRecordV,
> {
    jobs.map_values(
        |j: JobRecordV|
            if j.printer == printer && !is_terminal(j.state) {
                with_state(j, JobState::Canceled, now)
            } else {
                j
            },
    )
}

/// Canceling a printer's jobs cancels exactly its unfinished ones: every job
/// of `printer` that is pending, pending-held, processing or
/// processing-stopped reads back canceled, completed at `now`, with its id,
/// printer, owner, reasons, message and creation time kept; every finished
/// job, and every job of another printer, reads back unchanged.
pub proof fn lemma_cancel_unfinished_cancels_running_jobs(
    jobs: Seq<JobRecordV>,
    printer: Seq<char>,
    now: i32,
)
    ensures
        cancel_unfinished(jobs, printer, now).len() == jobs.len(),
        forall|k: int|
            0 <= k < jobs.len() ==> {
                let before = #[trigger] jobs[k];
                let after = cancel_unfinished(jobs, printer, now)[k];
                if before.printer == printer && (before.state == JobState::Pending || before.state
                    == JobState::PendingHeld || before.state == JobState::Processing || before.state
                    == JobState::ProcessingStopped) {
                    &&& after.state == JobState::Canceled
                    &&& after.completed == Some(now)
                    &&& after.id == before.id && after.printer == before.printer
                    &&& after.owner == before.owner && after.reasons == before.reasons
                    &&& after.message == before.message && after.created == before.created
                } else {
                    after == before
                }
            },
{
}

/// Job ids strictly increase along the list.
pub open spec fn ids_increasing(jobs: Seq<JobRecordV>) -> bool {
    forall|i: int, k: int| 0 <= i < k < jobs.len() ==> jobs[i].id < jobs[k].id
}

/// With unique ids, the job found for `id` is the one at its position.
proof fn lemma_job_index_at(jobs: Seq<JobRecordV>, id: JobId, i: int)
    requires
        ids_increasing(jobs),
        0 <= i < jobs.len(),
        jobs[i].id == id,
    ensures
        job_index(jobs, id) == Some(i),
{
    let c = choose|k: int| 0 <= k < jobs.len() && jobs[k].id == id;
    if c < i {
        assert(jobs[c].id < jobs[i].id);
    } else if c > i {
        assert(jobs[i].id < jobs[c].id);
    }
}

/// Reading a job back after an update gives the updated job: updating job
/// `id` with `f` (which keeps ids) makes `id` read back as `f` of the old
/// job, and leaves every other id reading back as before.
pub proof fn lemma_find_after_update(
    jobs: Seq<JobRecordV>,
    id: JobId,
    other: JobId,
    f: spec_fn(JobRecordV) -> JobRecordV,
)
    requires
        ids_increasing(jobs),
        forall|j: JobRecordV| #[trigger] f(j).id == j.id,
    ensures
        find_job(update_job(jobs, id, f), id) == (match find_job(jobs, id) {
            Some(j) => Some(f(j)),
            None => None,
        }),
        other != id ==> find_job(update_job(jobs, id, f), other) == find_job(jobs, other),
        ids_increasing(update_job(jobs, id, f)),
{
    let us = update_job(jobs, id, f);
    assert(us.len() == jobs.len());
    assert forall|k: int| 0 <= k < jobs.len() implies #[trigger] us[k].id == jobs[k].id by {
        if jobs[k].id == id {
            assert(us[k] == f(jobs[k]));
        }
    }
    assert(ids_increasing(us));
    assert forall|x: JobId| true implies find_job(us, x) == (match find_job(jobs, x) {
        Some(j) => Some(if j.id == id {
            f(j)
        } else {
            j
        }),
        None => None,
    }) by {
        if exists|k: int| 0 <= k < jobs.len() && jobs[k].id == x {
            let k = choose|k: int| 0 <= k < jobs.len() && jobs[k].id == x;
            lemma_job_index_at(jobs, x, k);
            assert(us[k].id == x);
            lemma_job_index_at(us, x, k);
        } else {
            assert forall|k: int| 0 <= k < us.len() implies us[k].id != x by {
                assert(us[k].id == jobs[k].id);
            }
        }
    }
    assert(find_job(us, id) == (match find_job(jobs, id) {
        Some(j) => Some(if j.id == id {
            f(j)
        } else {
            j
        }),
        None => None,
    }));
    if let Some(j) = find_job(jobs, id) {
        let k = job_index(jobs, id)->Some_0;
        assert(j.id == id);
    }
    assert(find_job(us, other) == (match find_job(jobs, other) {
        Some(j) => Some(if j.id == id {
            f(j)
        } else {
            j
        }),
        None => None,
    }));
    if other != id {
        if let Some(j) = find_job(jobs, other) {
            assert(j.id == other);
        }
    }
}

/// A newly created job reads back as created, and every job that was there
/// before reads back unchanged.
pub proof fn lemma_find_after_create(jobs: Seq<JobRecordV>, j: JobRecordV, other: JobId)
    requires
        ids_increasing(jobs),
        forall|i: int| 0 <= i < jobs.len() ==> #[trigger] jobs[i].id < j.id,
    ensures
        find_job(jobs.push(j), j.id) == Some(j),
        other != j.id ==> find_job(jobs.push(j), other) == find_job(jobs, other),
        ids_increasing(jobs.push(j)),
{
    let ps = jobs.push(j);
    assert(ids_increasing(ps));
    lemma_job_index_at(ps, j.id, jobs.len() as int);
    if other != j.id {
        if exists|k: int| 0 <= k < jobs.len() && jobs[k].id == other {
            let k = choose|k: int| 0 <= k < jobs.len() && jobs[k].id == other;
            lemma_job_index_at(jobs, other, k);
            lemma_job_index_at(ps, other, k);
        } else {
            assert forall|k: int| 0 <= k < ps.len() implies ps[k].id != other by {
                if k < jobs.len() {
                    assert(ps[k] == jobs[k]);
                }
            }
        }
    }
}

/// In-memory job registry. Job ids are allocated monotonically from 1 and
/// the jobs are kept in id order.
pub struct JobRegistry {
    jobs: Vec<JobRecord>,
    next_id: JobId,
}

impl JobRegistry {
    /// The jobs, oldest first.
    pub closed spec fn jobs(&self) -> Seq<JobRecordV> {
        jobs_view(self.jobs@)
    }

    /// The id the next created job receives.
    pub closed spec fn next_id(&self) -> JobId {
        self.next_id
    }

    /// Ids are strictly increasing in list order and all below `next_id`,
    /// which is at least 1.
    pub closed spec fn wf(&self) -> bool {
        &&& self.next_id >= 1
        &&& forall|i: int, k: int|
            0 <= i < k < self.jobs@.len() ==> self.jobs@[i].id < self.jobs@[k].id
        &&& forall|i: int| 0 <= i < self.jobs@.len() ==> 1 <= #[trigger] self.jobs@[i].id < self.next_id
    }

    /// Job ids are monotonic: in a well-formed registry the ids strictly
    /// increase in list order and all lie in `1..next_id`, so the job that
    /// `create` makes next (with id `next_id`) has a larger id than every job
    /// before it.
    pub proof fn lemma_ids_monotonic(&self)
        requires
            self.wf(),
        ensures
            ids_increasing(self.jobs()),
            forall|i: int| 0 <= i < self.jobs().len() ==> 1 <= #[trigger] self.jobs()[i].id < self.next_id(),
            self.next_id() >= 1,
    {
        assert forall|i: int, k: int| 0 <= i < k < self.jobs().len() implies self.jobs()[i].id < self.jobs()[k].id by {
            assert(self.jobs()[i] == self.jobs@[i]@);
            assert(self.jobs()[k] == self.jobs@[k]@);
        }
        assert forall|i: int| 0 <= i < self.jobs().len() implies 1 <= #[trigger] self.jobs()[i].id < self.next_id() by {
            assert(self.jobs()[i] == self.jobs@[i]@);
        }
    }

    /// An empty registry; the first job gets id 1.
    pub fn new() -> (r: JobRegistry)
        ensures
            r.wf(),
            r.jobs() == Seq::<JobRecordV>::empty(),
            r.next_id() == 1,
    {
        let r = JobRegistry { jobs: Vec::new(), next_id: 1 };
        assert(r.jobs() =~= Seq::<JobRecordV>::empty());
        r
    }

    /// Allocate a new `pending` job for `printer`, submitted by `owner`, at
    /// printer up-time `now`. `None` (nothing changed) once the id space is
    /// exhausted.
    pub fn create(&mut self, printer: String, owner: String, now: i32) -> (r: Option<JobRecord>)
        requires
            old(self).wf(),
        ensures
            final(self).wf(),
            old(self).next_id() == JobId::MAX ==> r is None && final(self).jobs() == old(
                self,
            ).jobs() && final(self).next_id() == old(self).next_id(),
            old(self).next_id() < JobId::MAX ==> r is Some && ({
                let j = r->Some_0@;
                &&& j == JobRecordV {
                    id: old(self).next_id(),
                    printer: printer@,
                    owner: owner@,
                    state: JobState::Pending,
                    reasons: 0,
                    message: Seq::empty(),
                    created: now,
                    completed: None,
                }
                &&& final(self).jobs() == old(self).jobs().push(j)
                &&& final(self).next_id() == old(self).next_id() + 1
            }),
    {
        if self.next_id == JobId::MAX {
            return None;
        }
        let job = JobRecord {
            id: self.next_id,
            printer,
            owner,
            state: JobState::Pending,
            reasons: PrinterReason::empty(),
            message: String::new(),
            created: now,
            completed: None,
        };
        let copy = job.duplicate();
        self.jobs.push(job);
        self.next_id = self.next_id + 1;
        proof {
            assert(self.jobs() =~= old(self).jobs().push(copy@));
        }
        Some(copy)
    }

    /// Position of job `id` in the list, if present.
    fn position(&self, id: JobId) -> (r: Option<usize>)
        requires
            self.wf(),
        ensures
            match r {
                Some(i) => job_index(self.jobs(), id) == Some(i as int) && i < self.jobs@.len(),
                None => job_index(self.jobs(), id) is None,
            },
    {
        let mut i: usize = 0;
        while i < self.jobs.len()
            invariant
                self.wf(),
                i <= self.jobs@.len(),
                forall|k: int| 0 <= k < i ==> self.jobs@[k].id != id,
            decreases self.jobs@.len() - i,
        {
            if self.jobs[i].id == id {
                proof {
                    let js = self.jobs();
                    assert(js[i as int].id == id);
                    let c = choose|k: int| 0 <= k < js.len() && js[k].id == id;
                    if c < i {
                        assert(self.jobs@[c].id != id);
                    }
                    if c > i {
                        assert(self.jobs@[i as int].id < self.jobs@[c].id);
                    }
                }
                return Some(i);
            }
            i = i + 1;
        }
        proof {
            let js = self.jobs();
            assert forall|k: int| 0 <= k < js.len() implies js[k].id != id by {
                assert(self.jobs@[k].id != id);
            }
        }
        None
    }

    /// The job with id `id`, if any.
    pub fn get(&self, id: JobId) -> (r: Option<JobRecord>)
        requires
            self.wf(),
        ensures
            match r {
                Some(j) => find_job(self.jobs(), id) == Some(j@),
                None => find_job(self.jobs(), id) is None,
            },
    {
        match self.position(id) {
            Some(i) => Some(self.jobs[i].duplicate()),
            None => None,
        }
    }

    /// The ids among `ids` whose job now reads back canceled, in the order
    /// given: the workers running those jobs are to stop.
    pub fn canceled_among(&self, ids: &Vec<JobId>) -> (r: Vec<JobId>)
        requires
            self.wf(),
        ensures
            r@ == ids@.filter(|id: JobId| is_canceled_in(self.jobs(), id)),
    {
        let ghost pred = |id: JobId| is_canceled_in(self.jobs(), id);
        let mut out: Vec<JobId> = Vec::new();
        let mut k: usize = 0;
        while k < ids.len()
            invariant
                self.wf(),
                k <= ids@.len(),
                pred == (|id: JobId| is_canceled_in(self.jobs(), id)),
                out@ == ids@.subrange(0, k as int).filter(pred),
            decreases ids@.len() - k,
        {
            let id = ids[k];
            let canceled = match self.get(id) {
                Some(j) => j.state == JobState::Canceled,
                None => false,
            };
            proof {
                reveal(Seq::filter);
                assert(ids@.subrange(0, k + 1).drop_last() =~= ids@.subrange(0, k as int));
                assert(ids@.subrange(0, k + 1).last() == id);
                assert(canceled == pred(id));
            }
            if canceled {
                out.push(id);
            }
            k = k + 1;
        }
        proof {
            assert(ids@.subrange(0, ids@.len() as int) =~= ids@);
        }
        out
    }

    /// Replace job `id` (at position `i`) by `job`, which keeps its id.
    fn replace(&mut self, i: usize, job: JobRecord)
        requires
            old(self).wf(),
            i < old(self).jobs@.len(),
            job.id == old(self).jobs@[i as int].id,
        ensures
            final(self).wf(),
            final(self).next_id() == old(self).next_id(),
            final(self).jobs() == old(self).jobs().update(i as int, job@),
            final(self).jobs@.len() == old(self).jobs@.len(),
    {
        let ghost j = job@;
        self.jobs.set(i, job);
        proof {
            assert(self.jobs() =~= old(self).jobs().update(i as int, j));
        }
    }

    /// Cancel job `id`. `None` if there is no such job; otherwise the job's
    /// state after the call: `Canceled` if it was still pending or
    /// processing (or already canceled), else its unchanged final state.
    pub fn cancel(&mut self, id: JobId, now: i32) -> (r: Option<JobState>)
        requires
            old(self).wf(),
        ensures
            final(self).wf(),
            final(self).next_id() == old(self).next_id(),
            match find_job(old(self).jobs(), id) {
                None => r is None && final(self).jobs() == old(self).jobs(),
                Some(j) => if is_terminal(j.state) {
                    r == Some(j.state) && final(self).jobs() == old(self).jobs()
                } else {
                    r == Some(JobState::Canceled) && final(self).jobs() == update_job(
                        old(self).jobs(),
                        id,
                        |j: JobRecordV| with_state(j, JobState::Canceled, now),
                    )
                },
            },
    {
        match self.position(id) {
            None => None,
            Some(i) => {
                let state = self.jobs[i].state;
                if state.is_terminal() {
                    Some(state)
                } else {
                    let mut job = self.jobs[i].duplicate();
                    job.state = JobState::Canceled;
                    job.completed = Some(now);
                    self.replace(i, job);
                    proof {
                        self.lemma_update_is_update_job(old(self).jobs(), i as int, id, |j: JobRecordV| with_state(j, JobState::Canceled, now));
                    }
                    Some(JobState::Canceled)
                }
            },
        }
    }

    /// With unique ids, replacing position `i` (job `id`) is `update_job`.
    proof fn lemma_update_is_update_job(
        &self,
        before: Seq<JobRecordV>,
        i: int,
        id: JobId,
        f: spec_fn(JobRecordV) -> JobRecordV,
    )
        requires
            job_index(before, id) == Some(i),
            0 <= i < before.len(),
            forall|a: int, b: int| 0 <= a < b < before.len() ==> before[a].id < before[b].id,
            self.jobs() == before.update(i, f(before[i])),
        ensures
            self.jobs() == update_job(before, id, f),
    {
        assert(before[i].id == id);
        assert forall|k: int| 0 <= k < before.len() && k != i implies before[k].id != id by {
            if k < i {
                assert(before[k].id < before[i].id);
            } else {
                assert(before[i].id < before[k].id);
            }
        }
        assert(self.jobs() =~= update_job(before, id, f));
    }

    /// Move job `id` to `state` at up-time `now` (a terminal state records
    /// the completion time). No effect if there is no such job.
    pub fn set_state(&mut self, id: JobId, state: JobState, now: i32)
        requires
            old(self).wf(),
        ensures
            final(self).wf(),
            final(self).next_id() == old(self).next_id(),
            final(self).jobs() == update_job(
                old(self).jobs(),
                id,
                |j: JobRecordV| with_state(j, state, now),
            ),
    {
        match self.position(id) {
            None => {
                proof {
                    assert(self.jobs() =~= update_job(
                        old(self).jobs(),
                        id,
                        |j: JobRecordV| with_state(j, state, now),
                    ));
                }
            },
            Some(i) => {
                let mut job = self.jobs[i].duplicate();
                job.state = state;
                if state.is_terminal() {
                    job.completed = Some(now);
                }
                self.replace(i, job);
                proof {
                    self.lemma_update_is_update_job(old(self).jobs(), i as int, id, |j: JobRecordV| with_state(j, state, now));
                }
            },
        }
    }

    /// Abort job `id` after a permanent failure, recording the reasons and
    /// the message. No effect if there is no such job.
    pub fn set_failure(&mut self, id: JobId, reasons: PrinterReason, message: String, now: i32)
        requires
            old(self).wf(),
        ensures
            final(self).wf(),
            final(self).next_id() == old(self).next_id(),
            final(self).jobs() == update_job(
                old(self).jobs(),
                id,
                |j: JobRecordV| with_failure(j, reasons.0, message@, now),
            ),
    {
        let ghost m = message@;
        match self.position(id) {
            None => {
                proof {
                    assert(self.jobs() =~= update_job(
                        old(self).jobs(),
                        id,
                        |j: JobRecordV| with_failure(j, reasons.0, m, now),
                    ));
                }
            },
            Some(i) => {
                let mut job = self.jobs[i].duplicate();
                job.state = JobState::Aborted;
                job.reasons = reasons;
                job.message = message;
                job.completed = Some(now);
                self.replace(i, job);
                proof {
                    self.lemma_update_is_update_job(old(self).jobs(), i as int, id, |j: JobRecordV| with_failure(j, reasons.0, m, now));
                }
            },
        }
    }

    /// Cancel every unfinished job of `printer` (Cancel-My-Jobs); finished
    /// jobs are left as they are.
    pub fn cancel_printer_jobs(&mut self, printer: &str, now: i32)
        requires
            old(self).wf(),
        ensures
            final(self).wf(),
            final(self).next_id() == old(self).next_id(),
            final(self).jobs() == cancel_unfinished(old(self).jobs(), printer@, now),
    {
        let mut i: usize = 0;
        while i < self.jobs.len()
            invariant
                self.wf(),
                self.next_id == old(self).next_id,
                i <= self.jobs@.len(),
                old(self).jobs().len() == old(self).jobs@.len(),
                self.jobs@.len() == old(self).jobs@.len(),
                forall|k: int|
                    0 <= k < self.jobs@.len() ==> #[trigger] self.jobs@[k]@ == (if k < i {
                        cancel_unfinished(old(self).jobs(), printer@, now)[k]
                    } else {
                        old(self).jobs()[k]
                    }),
            decreases self.jobs@.len() - i,
        {
            let ghost before = self.jobs();
            proof {
                assert(before[i as int] == self.jobs@[i as int]@);
                assert(before[i as int] == old(self).jobs()[i as int]);
            }
            if str_eq(self.jobs[i].printer.as_str(), printer) && !self.jobs[i].state.is_terminal() {
                let mut job = self.jobs[i].duplicate();
                job.state = JobState::Canceled;
                job.completed = Some(now);
                self.replace(i, job);
            }
            proof {
                assert forall|k: int| 0 <= k < self.jobs@.len() implies #[trigger] self.jobs@[k]@ == (if k < i + 1 {
                    cancel_unfinished(old(self).jobs(), printer@, now)[k]
                } else {
                    old(self).jobs()[k]
                }) by {
                    assert(self.jobs()[k] == self.jobs@[k]@);
                    assert(before[k] == (if k < i {
                        cancel_unfinished(old(self).jobs(), printer@, now)[k]
                    } else {
                        old(self).jobs()[k]
                    }));
                }
            }
            i = i + 1;
        }
        proof {
            assert(self.jobs() =~= cancel_unfinished(old(self).jobs(), printer@, now));
        }
    }

    /// The jobs of `printer`, oldest first.
    pub fn jobs_for_printer(&self, printer: &str) -> (r: Vec<JobRecord>)
        requires
            self.wf(),
        ensures
            jobs_view(r@) == self.jobs().filter(|j: JobRecordV| j.printer == printer@),
    {
        let mut out: Vec<JobRecord> = Vec::new();
        let mut i: usize = 0;
        while i < self.jobs.len()
            invariant
                i <= self.jobs@.len(),
                jobs_view(out@) == self.jobs().take(i as int).filter(|j: JobRecordV| j.printer == printer@),
            decreases self.jobs@.len() - i,
        {
            let ghost before = out@;
            proof {
                assert(self.jobs().take(i + 1).drop_last() =~= self.jobs().take(i as int));
                reveal_with_fuel(Seq::filter, 1);
            }
            if str_eq(self.jobs[i].printer.as_str(), printer) {
                out.push(self.jobs[i].duplicate());
                proof {
                    assert(jobs_view(out@) =~= jobs_view(before).push(self.jobs()[i as int]));
                }
            }
            i = i + 1;
        }
        proof {
            assert(self.jobs().take(self.jobs@.len() as int) =~= self.jobs());
        }
        out
    }
}

} // verus!
