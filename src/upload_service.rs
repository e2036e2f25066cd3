//! The upload service: task creation, the commands a caller issues, the
//! dispatcher that admits waiting tasks into free slots, and the decisions a
//! worker takes between chunks.
use vstd::prelude::*;

use crate::config::ConfigRoot;
use crate::governor::ConcurrencyGovernor;
use crate::queue::{
    admission_result, admission_step, admitted, admitted_at, awaits_worker, eligible, first_awaiting,
    key_lt, lemma_count_update,
    slot_of, uploading_count,
};
use crate::lifecycle::{
    backoff_ms, cancel_marked, failed, is_cancelled_form, lawful_change, lawful_growth, lemma_change_alone,
    lemma_change_then_admission, lemma_no_change, lemma_single_update, pause_marked, paused,
    requeued, restarted, retried, saturating_sum, succeeded, BACKOFF_BASE_MS, BACKOFF_CAP_MS,
};
use crate::store::{SchedulerError, TaskStore, TaskSummary};
use crate::task::{lemma_sum_update, zeroes, FilePart, TaskEvent, TaskRecord, TaskState};

verus! {

/// Attempts a task may use before a transient failure becomes final.
pub const DEFAULT_MAX_ATTEMPTS: u32 = 3;

/// Bytes a worker sends per chunk unless configured otherwise.
pub const DEFAULT_CHUNK_SIZE: u64 = 4194304;

/// What a worker does next for its task.
#[derive(Clone, Copy, Debug, PartialEq, Eq, Structural)]
pub enum WorkerStep {
    /// Send `len` bytes of part `part`, starting at byte `offset`.
    Send { part: usize, offset: u64, len: u64 },
    /// The task left `Uploading` for the given state; the worker ends.
    Stop(TaskState),
}

/// What the remote side answered to one chunk.
pub enum ChunkOutcome {
    /// The part is acknowledged up to this byte offset.
    Ack(u64),
    /// A failure worth retrying (network, timeout).
    Transient(String),
    /// A failure that retrying would not mend (credentials, quota, validation).
    Fatal(String),
}

/// The attempt count after one more transient failure, capped at `max`.
pub open spec fn attempts_after_failure(attempts: u32, max: u32) -> u32 {
    if attempts >= max {
        max
    } else {
        (attempts + 1) as u32
    }
}

/// Record `n` without the effects of being admitted: how it stood in the
/// queue just before.
pub open spec fn unadmitted(n: TaskRecord) -> TaskRecord {
    TaskRecord { state: TaskState::Pending, started_at: None, ..n }
}

/// `r` is the record of a newly created task.
pub open spec fn is_fresh(
    r: TaskRecord,
    id: u64,
    owner: u64,
    template: String,
    parts: Vec<FilePart>,
    now: u64,
) -> bool {
    &&& r.wf()
    &&& r.id == id
    &&& r.owner == owner
    &&& r.template == template
    &&& r.parts == parts
    &&& r.state == TaskState::Pending
    &&& r.checkpoints@ == Seq::new(parts@.len(), |i: int| 0u64)
    &&& r.attempt_count == 0
    &&& r.last_error.is_none()
    &&& r.created_at == now
    &&& r.started_at.is_none()
    &&& r.finished_at.is_none()
    &&& r.ready_at == now
    &&& !r.pause_requested
    &&& !r.cancel_requested
    &&& !r.claimed
}

/// Delay before the automatic retry that follows transient failure number
/// `attempt`, in milliseconds.
pub fn backoff_delay(attempt: u32) -> (r: u64)
    ensures
        r == backoff_ms(attempt as nat),
        r <= BACKOFF_CAP_MS,
{
    let mut d: u64 = BACKOFF_BASE_MS;
    let mut k: u32 = 1;
    while k < attempt
        invariant
            1 <= k,
            k <= attempt || k == 1,
            d == backoff_ms(k as nat),
            d <= BACKOFF_CAP_MS,
        decreases attempt - k,
    {
        d = if 2 * d > BACKOFF_CAP_MS {
            BACKOFF_CAP_MS
        } else {
            2 * d
        };
        k = k + 1;
    }
    proof {
        if attempt <= 1 {
            assert(backoff_ms(attempt as nat) == BACKOFF_BASE_MS);
            assert(backoff_ms(1) == BACKOFF_BASE_MS);
        }
    }
    d
}

/// `a + b`, or `u64::MAX` where the sum does not fit.
pub fn add_saturating(a: u64, b: u64) -> (r: u64)
    ensures
        r == saturating_sum(a, b),
{
    if a > u64::MAX - b {
        u64::MAX
    } else {
        a + b
    }
}

/// The scheduler: every task record, the concurrency limit, and the settings
/// that govern transfers and retries.
pub struct UploadService {
    pub(crate) store: TaskStore,
    pub(crate) governor: ConcurrencyGovernor,
    pub(crate) next_id: u64,
    pub(crate) max_attempts: u32,
    pub(crate) chunk_size: u64,
}

impl UploadService {
    /// The task records, in creation order.
    pub open(crate) spec fn records(&self) -> Seq<TaskRecord> {
        self.store.records()
    }

    /// The current concurrency limit.
    pub open(crate) spec fn limit(&self) -> nat {
        self.governor.limit()
    }

    /// The identifier the next created task receives.
    pub open(crate) spec fn next_id(&self) -> nat {
        self.next_id as nat
    }

    /// Attempts a task may use.
    pub open(crate) spec fn max_attempts(&self) -> nat {
        self.max_attempts as nat
    }

    /// Bytes per chunk.
    pub open(crate) spec fn chunk_size(&self) -> nat {
        self.chunk_size as nat
    }

    /// The service's invariant: a consistent store, a positive limit, positive
    /// settings, identifiers below the next one to issue, and attempt counts
    /// within the maximum.
    pub open(crate) spec fn wf(&self) -> bool {
        &&& self.store.wf()
        &&& self.governor.wf()
        &&& self.max_attempts >= 1
        &&& self.chunk_size >= 1
        &&& forall|i: int|
            0 <= i < self.records().len() ==> (#[trigger] self.records()[i]).id < self.next_id
                && self.records()[i].attempt_count <= self.max_attempts
    }

    /// `other` has the same limit and settings and issues the same next
    /// identifier.
    pub open(crate) spec fn same_settings(&self, other: &UploadService) -> bool {
        &&& self.limit() == other.limit()
        &&& self.next_id() == other.next_id()
        &&& self.max_attempts() == other.max_attempts()
        &&& self.chunk_size() == other.chunk_size()
    }

    /// Some task has identifier `id`.
    pub open(crate) spec fn has_task(&self, id: u64) -> bool {
        self.store.has_id(id)
    }

    /// Replacing one record by a well-formed one with the same identifier and
    /// an attempt count within the maximum keeps the service well formed.
    proof fn lemma_update_wf(pre: &UploadService, post: &UploadService, i: int, r: TaskRecord)
        requires
            pre.wf(),
            0 <= i < pre.records().len(),
            post.records() == pre.records().update(i, r),
            post.governor == pre.governor,
            post.next_id == pre.next_id,
            post.max_attempts == pre.max_attempts,
            post.chunk_size == pre.chunk_size,
            r.wf(),
            r.id == pre.records()[i].id,
            r.attempt_count <= pre.max_attempts,
        ensures
            post.wf(),
    {
        let o = pre.records();
        assert forall|a: int| 0 <= a < post.records().len() implies (#[trigger] post.records()[a]).wf()
            && post.records()[a].id < post.next_id && post.records()[a].attempt_count <= post.max_attempts by {
            assert(o[a].wf());
            assert(pre.store.records()[a].wf());
        }
        assert forall|a: int, b: int|
            0 <= a < post.records().len() && 0 <= b < post.records().len() && a != b
                implies #[trigger] post.records()[a].id != #[trigger] post.records()[b].id by {
            assert(o[a].id != o[b].id);
        }
    }

    /// Admits the eligible record at position `i`.
    fn admit_at(&mut self, i: usize, now: u64)
        requires
            old(self).wf(),
            i < old(self).records().len(),
            eligible(old(self).records()[i as int], now),
        ensures
            final(self).wf(),
            final(self).same_settings(old(self)),
            final(self).records() == old(self).records().update(
                i as int,
                admitted(old(self).records()[i as int], now),
            ),
    {
        let _ = self.store.transition_at(i, TaskEvent::Admit);
        self.store.tasks[i].started_at = Some(now);
        self.store.tasks[i].last_error = None;
        proof {
            let o = old(self).records();
            assert(self.records()[i as int] == admitted(o[i as int], now));
            assert(self.records() =~= o.update(i as int, admitted(o[i as int], now)));
            assert forall|a: int| 0 <= a < self.records().len() implies (#[trigger] self.records()[a]).wf()
                && self.records()[a].id == o[a].id && self.records()[a].attempt_count == o[a].attempt_count by {
                assert(o[a].wf());
                assert(old(self).store.records()[a].wf());
            }
            assert forall|a: int, b: int|
                0 <= a < self.records().len() && 0 <= b < self.records().len() && a != b
                    implies #[trigger] self.records()[a].id != #[trigger] self.records()[b].id by {
                assert(o[a].id != o[b].id);
            }
        }
    }

    /// The dispatcher: admits eligible tasks, oldest first, while a slot is
    /// free.
    pub fn dispatch(&mut self, now: u64)
        requires
            old(self).wf(),
        ensures
            final(self).wf(),
            final(self).same_settings(old(self)),
            admission_result(old(self).records(), final(self).records(), old(self).limit() as int, now),
    {
        let ghost before = self.records();
        let limit = self.governor.get() as u64;
        let mut running = self.store.count_uploading();
        let mut done = false;
        proof {
            assert forall|i: int| 0 <= i < before.len() implies #[trigger] self.records()[i] == before[i]
                || (eligible(before[i], now) && self.records()[i] == admitted(before[i], now)) by {}
        }
        while running < limit && !done
            invariant
                self.wf(),
                self.same_settings(old(self)),
                limit == old(self).limit(),
                running == uploading_count(self.records()),
                admission_step(before, self.records(), limit as int, now),
                done ==> forall|j: int|
                    0 <= j < self.records().len() ==> !eligible(#[trigger] self.records()[j], now),
            decreases limit - running + if done { 0int } else { 1int },
        {
            match self.store.oldest_eligible(now) {
                None => {
                    done = true;
                },
                Some(i) => {
                    let ghost cur = self.records();
                    self.admit_at(i, now);
                    proof {
                        let nxt = self.records();
                        lemma_count_update(cur, i as int, admitted(cur[i as int], now));
                        assert(cur[i as int] == before[i as int]);
                        assert forall|k: int| 0 <= k < before.len() implies #[trigger] nxt[k]
                            == before[k] || (eligible(before[k], now) && nxt[k] == admitted(
                            before[k],
                            now,
                        )) by {
                            if k != i {
                                assert(nxt[k] == cur[k]);
                            }
                        }
                        assert forall|a: int, j: int|
                            0 <= a < before.len() && 0 <= j < before.len() && admitted_at(
                                before,
                                nxt,
                                a,
                            ) && eligible(#[trigger] nxt[j], now) implies key_lt(
                            #[trigger] before[a],
                            before[j],
                        ) by {
                            assert(j != i);
                            assert(nxt[j] == cur[j]);
                            assert(cur[j] == before[j]);
                            if a != i {
                                assert(nxt[a] == cur[a]);
                                assert(admitted_at(before, cur, a));
                            }
                        }
                    }
                    running = running + 1;
                },
            }
        }
    }
}

impl UploadService {
    /// A service with no tasks, concurrency limit `max_curr`, and the default
    /// attempt limit and chunk size.
    pub fn new(max_curr: u32) -> (r: UploadService)
        requires
            max_curr >= 1,
        ensures
            r.wf(),
            r.records() == Seq::<TaskRecord>::empty(),
            r.limit() == max_curr,
            r.next_id() == 0,
            r.max_attempts() == DEFAULT_MAX_ATTEMPTS,
            r.chunk_size() == DEFAULT_CHUNK_SIZE,
    {
        UploadService::with_settings(max_curr, DEFAULT_MAX_ATTEMPTS, DEFAULT_CHUNK_SIZE)
    }

    /// A service with no tasks and the given limit, attempt limit and chunk
    /// size.
    pub fn with_settings(max_curr: u32, max_attempts: u32, chunk_size: u64) -> (r: UploadService)
        requires
            max_curr >= 1,
            max_attempts >= 1,
            chunk_size >= 1,
        ensures
            r.wf(),
            r.records() == Seq::<TaskRecord>::empty(),
            r.limit() == max_curr,
            r.next_id() == 0,
            r.max_attempts() == max_attempts,
            r.chunk_size() == chunk_size,
    {
        UploadService {
            store: TaskStore::new(),
            governor: ConcurrencyGovernor::new(max_curr),
            next_id: 0,
            max_attempts,
            chunk_size,
        }
    }

    /// The current concurrency limit.
    pub fn max_concurrent(&self) -> (r: u32)
        ensures
            r == self.limit(),
    {
        self.governor.get()
    }

    /// What creating a task for `owner` with template `template` and payload
    /// `parts` at `now` does: a fresh record is appended and an admission round
    /// runs; or, with no identifier left or a payload too large, it fails and
    /// nothing changes.
    pub open(crate) spec fn creates(
        &self,
        after: &UploadService,
        r: Result<u64, SchedulerError>,
        owner: u64,
        template: String,
        parts: Vec<FilePart>,
        now: u64,
    ) -> bool {
        &&& after.limit() == self.limit()
        &&& after.max_attempts() == self.max_attempts()
        &&& after.chunk_size() == self.chunk_size()
        &&& match r {
            Ok(id) => {
                let n = self.records().len();
                &&& id == self.next_id()
                &&& after.next_id() == id + 1
                &&& after.records().len() == n + 1
                &&& is_fresh(unadmitted(after.records()[n as int]), id, owner, template, parts, now)
                &&& admission_result(
                    self.records().push(unadmitted(after.records()[n as int])),
                    after.records(),
                    self.limit() as int,
                    now,
                )
                &&& lawful_change(
                    self.records(),
                    after.records().take(n as int),
                    self.limit() as int,
                )                &&& lawful_growth(self.records(), after.records(), self.limit() as int)
            },
            Err(e) => {
                &&& after.records() == self.records()
                &&& after.next_id() == self.next_id()
                &&& (e == SchedulerError::IdsExhausted <==> self.next_id() == u64::MAX)
                &&& (e == SchedulerError::PayloadTooLarge <==> self.next_id() < u64::MAX
                    && crate::task::total_size(parts@) > u64::MAX)
                &&& (e == SchedulerError::IdsExhausted || e == SchedulerError::PayloadTooLarge)
            },
        }
    }

    /// Creates a pending task for `owner` with metadata template `template`
    /// and payload `parts`, then admits tasks while slots are free. Fails with
    /// `IdsExhausted` when no identifier is left and with `PayloadTooLarge`
    /// when the payload's size does not fit in 64 bits; then nothing changes.
    pub fn create_task(
        &mut self,
        owner: u64,
        template: String,
        parts: Vec<FilePart>,
        now: u64,
    ) -> (r: Result<u64, SchedulerError>)
        requires
            old(self).wf(),
        ensures
            final(self).wf(),
            old(self).creates(&*final(self), r, owner, template, parts, now),
    {
        if self.next_id == u64::MAX {
            return Err(SchedulerError::IdsExhausted);
        }
        let id = self.next_id;
        let ghost a = self.records();
        let ghost tmpl = template;
        let ghost ps = parts;
        match TaskRecord::new(id, owner, template, parts, now) {
            None => Err(SchedulerError::PayloadTooLarge),
            Some(rec) => {
                let ghost fresh = rec;
                proof {
                    assert(!self.store.has_id(id));
                }
                let _ = self.store.insert(rec);
                self.next_id = id + 1;
                proof {
                    let b = self.records();
                    assert(b == a.push(fresh));
                    assert forall|k: int| 0 <= k < b.len() implies (#[trigger] b[k]).wf() && b[k].id
                        < self.next_id && b[k].attempt_count <= self.max_attempts by {
                        if k < a.len() {
                            assert(a[k] == old(self).records()[k]);
                            assert(old(self).store.records()[k].wf());
                        }
                    }
                }
                self.dispatch(now);
                proof {
                    let b = a.push(fresh);
                    let c = self.records();
                    let n = a.len() as int;
                    assert(c[n] == fresh || c[n] == crate::queue::admitted(fresh, now));
                    assert(unadmitted(c[n]) == fresh);
                    assert forall|i: int| 0 <= i < n implies {
                        &&& (#[trigger] c.take(n)[i]).id == a[i].id
                        &&& crate::lifecycle::conforms(a[i].state, c.take(n)[i].state)
                        &&& (a[i].state == TaskState::Uploading && c.take(n)[i].state == TaskState::Uploading)
                            ==> c.take(n)[i].progress() >= a[i].progress()
                    } by {
                        assert(c.take(n)[i] == c[i]);
                        assert(b[i] == a[i]);
                    }
                    crate::queue::lemma_count_prefix(c, n);
                    crate::queue::lemma_count_prefix(b, n);
                    assert(c.take(n + 1) =~= c);
                    assert(b.take(n + 1) =~= b);
                    assert(b.take(n) =~= a);
                    assert(crate::queue::slot_of(b[n]) == 0);
                    assert forall|i: int| 0 <= i < n implies {
                        &&& (#[trigger] c[i]).id == a[i].id
                        &&& crate::lifecycle::conforms(a[i].state, c[i].state)
                        &&& (a[i].state == TaskState::Uploading && c[i].state == TaskState::Uploading)
                            ==> c[i].progress() >= a[i].progress()
                    } by {
                        assert(c.take(n)[i] == c[i]);
                    }
                    if c == b {
                        assert(uploading_count(c) == uploading_count(a));
                    }
                }
                Ok(id)
            },
        }
    }

    /// Creates a task as `create_task` does, after the checks a caller's
    /// request needs: the owner must be signed in (`NotAuthenticated`) and
    /// have a template named `template` in `config` (`TemplateNotFound`);
    /// when a check fails nothing changes.
    pub fn create_task_for(
        &mut self,
        config: &ConfigRoot,
        signed_in: bool,
        owner: u64,
        template: String,
        parts: Vec<FilePart>,
        now: u64,
    ) -> (r: Result<u64, SchedulerError>)
        requires
            old(self).wf(),
        ensures
            final(self).wf(),
            !signed_in ==> r == Err::<u64, SchedulerError>(SchedulerError::NotAuthenticated)
                && *final(self) == *old(self),
            signed_in && !config.has_template_spec(owner, template@) ==> r == Err::<u64, SchedulerError>(
                SchedulerError::TemplateNotFound,
            ) && *final(self) == *old(self),
            signed_in && config.has_template_spec(owner, template@) ==> old(self).creates(
                &*final(self),
                r,
                owner,
                template,
                parts,
                now,
            ),
    {
        if !signed_in {
            return Err(SchedulerError::NotAuthenticated);
        }
        if !config.has_template(owner, template.as_str()) {
            return Err(SchedulerError::TemplateNotFound);
        }
        self.create_task(owner, template, parts, now)
    }

    /// Puts a paused task back in the queue, clearing its last error, and
    /// admits tasks while slots are free; the task resumes from its
    /// checkpoints. Any other state fails with
    /// `InvalidStateTransition`, an unknown id with `NotFound`, and then
    /// nothing changes.
    pub fn start_upload(&mut self, id: u64, now: u64) -> (r: Result<bool, SchedulerError>)
        requires
            old(self).wf(),
        ensures
            final(self).wf(),
            final(self).same_settings(old(self)),
            lawful_change(old(self).records(), final(self).records(), old(self).limit() as int),
            !old(self).has_task(id) ==> r == Err::<bool, SchedulerError>(SchedulerError::NotFound)
                && final(self).records() == old(self).records(),
            forall|i: int|
                0 <= i < old(self).records().len() && old(self).records()[i].id == id ==> if old(self).records()[i].state == TaskState::Paused {
                    r == Ok::<bool, SchedulerError>(true) && admission_result(
                        old(self).records().update(i, restarted(old(self).records()[i], now)),
                        final(self).records(),
                        old(self).limit() as int,
                        now,
                    )
                } else {
                    r == Err::<bool, SchedulerError>(SchedulerError::InvalidStateTransition)
                        && final(self).records() == old(self).records()
                },
    {
        let ghost a = self.records();
        let i = match self.store.find(id) {
            None => {
                proof {
                    lemma_change_alone(a, a, self.limit() as int);
                }
                return Err(SchedulerError::NotFound);
            },
            Some(i) => i,
        };
        proof {
            self.store.lemma_unique(i as int);
        }
        if self.store.at(i).state != TaskState::Paused {
            proof {
                lemma_change_alone(a, a, self.limit() as int);
            }
            return Err(SchedulerError::InvalidStateTransition);
        }
        let ghost pre = *self;
        let _ = self.store.transition_at(i, TaskEvent::Start);
        self.store.tasks[i].last_error = None;
        self.store.tasks[i].ready_at = now;
        proof {
            let nr = restarted(a[i as int], now);
            assert(a[i as int].wf());
            assert(self.records() =~= a.update(i as int, nr));
            Self::lemma_update_wf(&pre, self, i as int, nr);
            lemma_single_update(a, i as int, nr);
        }
        let ghost b = self.records();
        self.dispatch(now);
        proof {
            lemma_change_then_admission(a, b, self.records(), old(self).limit() as int, now);
        }
        Ok(true)
    }

    /// Asks an uploading task to pause: its worker stops at the next chunk
    /// boundary and the task becomes `Paused` there. Any other state fails
    /// with `InvalidStateTransition`, an unknown id with `NotFound`, and then
    /// nothing changes.
    pub fn pause_upload(&mut self, id: u64) -> (r: Result<bool, SchedulerError>)
        requires
            old(self).wf(),
        ensures
            final(self).wf(),
            final(self).same_settings(old(self)),
            lawful_change(old(self).records(), final(self).records(), old(self).limit() as int),
            !old(self).has_task(id) ==> r == Err::<bool, SchedulerError>(SchedulerError::NotFound)
                && final(self).records() == old(self).records(),
            forall|i: int|
                0 <= i < old(self).records().len() && old(self).records()[i].id == id ==> if old(self).records()[i].state == TaskState::Uploading {
                    r == Ok::<bool, SchedulerError>(true) && final(self).records() == old(self).records().update(i, pause_marked(old(self).records()[i]))
                } else {
                    r == Err::<bool, SchedulerError>(SchedulerError::InvalidStateTransition)
                        && final(self).records() == old(self).records()
                },
    {
        let ghost a = self.records();
        proof {
            lemma_change_alone(a, a, self.limit() as int);
        }
        let i = match self.store.find(id) {
            None => {
                return Err(SchedulerError::NotFound);
            },
            Some(i) => i,
        };
        proof {
            self.store.lemma_unique(i as int);
        }
        if self.store.at(i).state != TaskState::Uploading {
            return Err(SchedulerError::InvalidStateTransition);
        }
        let ghost pre = *self;
        self.store.tasks[i].pause_requested = true;
        proof {
            let nr = pause_marked(a[i as int]);
            assert(a[i as int].wf());
            assert(self.records() =~= a.update(i as int, nr));
            Self::lemma_update_wf(&pre, self, i as int, nr);
            lemma_single_update(a, i as int, nr);
            lemma_change_alone(a, self.records(), self.limit() as int);
        }
        Ok(true)
    }

    /// Cancels a task. A pending or paused task becomes `Cancelled` at once
    /// and its checkpoints are discarded; an uploading task is asked to
    /// cancel and its worker stops at the next chunk boundary. Cancelling a
    /// cancelled task succeeds and changes nothing. A succeeded or failed task
    /// has no cancel in the transition table: it fails with
    /// `InvalidStateTransition` and changes nothing; an unknown id fails with
    /// `NotFound`.
    pub fn cancel_upload(&mut self, id: u64, now: u64) -> (r: Result<bool, SchedulerError>)
        requires
            old(self).wf(),
        ensures
            final(self).wf(),
            final(self).same_settings(old(self)),
            lawful_change(old(self).records(), final(self).records(), old(self).limit() as int),
            !old(self).has_task(id) ==> r == Err::<bool, SchedulerError>(SchedulerError::NotFound)
                && final(self).records() == old(self).records(),
            forall|i: int|
                0 <= i < old(self).records().len() && old(self).records()[i].id == id ==> {
                    let rec = old(self).records()[i];
                    match rec.state {
                        TaskState::Pending | TaskState::Paused => r == Ok::<bool, SchedulerError>(
                            true,
                        ) && final(self).records() == old(self).records().update(
                            i,
                            final(self).records()[i],
                        ) && is_cancelled_form(final(self).records()[i], rec, now),
                        TaskState::Uploading => r == Ok::<bool, SchedulerError>(true) && final(self).records() == old(self).records().update(i, cancel_marked(rec)),
                        TaskState::Cancelled => r == Ok::<bool, SchedulerError>(true) && final(self).records() == old(self).records(),
                        _ => r == Err::<bool, SchedulerError>(SchedulerError::InvalidStateTransition)
                            && final(self).records() == old(self).records(),
                    }
                },
    {
        let ghost a = self.records();
        proof {
            lemma_change_alone(a, a, self.limit() as int);
        }
        let i = match self.store.find(id) {
            None => {
                return Err(SchedulerError::NotFound);
            },
            Some(i) => i,
        };
        proof {
            self.store.lemma_unique(i as int);
            assert(a[i as int].wf());
        }
        let state = self.store.at(i).state;
        let ghost pre = *self;
        match state {
            TaskState::Pending | TaskState::Paused => {
                let _ = self.store.transition_at(i, TaskEvent::Cancel);
                let n = self.store.at(i).checkpoints.len();
                self.store.tasks[i].checkpoints = zeroes(n);
                self.store.tasks[i].finished_at = Some(now);
                proof {
                    let nr = self.records()[i as int];
                    assert(is_cancelled_form(nr, a[i as int], now));
                    assert(self.records() =~= a.update(i as int, nr));
                    Self::lemma_update_wf(&pre, self, i as int, nr);
                    lemma_single_update(a, i as int, nr);
                    lemma_change_alone(a, self.records(), self.limit() as int);
                }
                Ok(true)
            },
            TaskState::Uploading => {
                self.store.tasks[i].cancel_requested = true;
                proof {
                    let nr = cancel_marked(a[i as int]);
                    assert(self.records() =~= a.update(i as int, nr));
                    Self::lemma_update_wf(&pre, self, i as int, nr);
                    lemma_single_update(a, i as int, nr);
                    lemma_change_alone(a, self.records(), self.limit() as int);
                }
                Ok(true)
            },
            TaskState::Cancelled => Ok(true),
            _ => Err(SchedulerError::InvalidStateTransition),
        }
    }

    /// Puts a failed task back in the queue, clearing its last error and
    /// keeping its attempt count, and admits tasks while slots are free. Any
    /// other state fails with `InvalidStateTransition`, an unknown id with
    /// `NotFound`, and then nothing changes.
    pub fn retry_upload(&mut self, id: u64, now: u64) -> (r: Result<bool, SchedulerError>)
        requires
            old(self).wf(),
        ensures
            final(self).wf(),
            final(self).same_settings(old(self)),
            lawful_change(old(self).records(), final(self).records(), old(self).limit() as int),
            !old(self).has_task(id) ==> r == Err::<bool, SchedulerError>(SchedulerError::NotFound)
                && final(self).records() == old(self).records(),
            forall|i: int|
                0 <= i < old(self).records().len() && old(self).records()[i].id == id ==> if old(self).records()[i].state == TaskState::Failed {
                    r == Ok::<bool, SchedulerError>(true) && admission_result(
                        old(self).records().update(i, retried(old(self).records()[i], now)),
                        final(self).records(),
                        old(self).limit() as int,
                        now,
                    )
                } else {
                    r == Err::<bool, SchedulerError>(SchedulerError::InvalidStateTransition)
                        && final(self).records() == old(self).records()
                },
    {
        let ghost a = self.records();
        proof {
            lemma_change_alone(a, a, self.limit() as int);
        }
        let i = match self.store.find(id) {
            None => {
                return Err(SchedulerError::NotFound);
            },
            Some(i) => i,
        };
        proof {
            self.store.lemma_unique(i as int);
        }
        if self.store.at(i).state != TaskState::Failed {
            return Err(SchedulerError::InvalidStateTransition);
        }
        let ghost pre = *self;
        let _ = self.store.transition_at(i, TaskEvent::Retry);
        self.store.tasks[i].last_error = None;
        self.store.tasks[i].finished_at = None;
        self.store.tasks[i].ready_at = now;
        proof {
            let nr = retried(a[i as int], now);
            assert(a[i as int].wf());
            assert(self.records() =~= a.update(i as int, nr));
            Self::lemma_update_wf(&pre, self, i as int, nr);
            lemma_single_update(a, i as int, nr);
        }
        let ghost b = self.records();
        self.dispatch(now);
        proof {
            lemma_change_then_admission(a, b, self.records(), old(self).limit() as int, now);
        }
        Ok(true)
    }

    /// Replaces the concurrency limit and, where slots are free, admits
    /// waiting tasks in the same call. Lowering the limit stops no running
    /// task; it only holds back admissions.
    pub fn set_max_concurrent(&mut self, max_curr: u32, now: u64)
        requires
            old(self).wf(),
            max_curr >= 1,
        ensures
            final(self).wf(),
            final(self).limit() == max_curr,
            final(self).next_id() == old(self).next_id(),
            final(self).max_attempts() == old(self).max_attempts(),
            final(self).chunk_size() == old(self).chunk_size(),
            admission_result(old(self).records(), final(self).records(), max_curr as int, now),
            lawful_change(old(self).records(), final(self).records(), max_curr as int),
            uploading_count(old(self).records()) <= max_curr ==> uploading_count(final(self).records())
                <= max_curr,
    {
        let ghost a = self.records();
        self.governor.set(max_curr);
        self.dispatch(now);
        proof {
            lemma_no_change(a);
            lemma_change_then_admission(a, a, self.records(), max_curr as int, now);
        }
    }

    /// A summary of every task, in creation order.
    pub fn get_upload_queue(&self) -> (r: Vec<TaskSummary>)
        requires
            self.wf(),
        ensures
            r@.len() == self.records().len(),
            forall|i: int|
                0 <= i < r@.len() ==> crate::store::summarizes(#[trigger] r@[i], self.records()[i]),
    {
        self.store.list()
    }

    /// The record of the task with identifier `id`, or `NotFound`.
    pub fn task(&self, id: u64) -> (r: Result<&TaskRecord, SchedulerError>)
        ensures
            match r {
                Ok(rec) => rec.id == id && exists|i: int|
                    0 <= i < self.records().len() && self.records()[i] == *rec,
                Err(e) => e == SchedulerError::NotFound && !self.has_task(id),
            },
    {
        match self.store.find(id) {
            Some(i) => {
                let rec = self.store.at(i);
                proof {
                    assert(self.records()[i as int] == *rec);
                }
                Ok(rec)
            },
            None => Err(SchedulerError::NotFound),
        }
    }

    /// Hands out an admitted task that no worker runs yet, marking it as
    /// claimed; `None` when every uploading task has its worker.
    pub fn claim_admitted(&mut self) -> (r: Option<u64>)
        requires
            old(self).wf(),
        ensures
            final(self).wf(),
            final(self).same_settings(old(self)),
            lawful_change(old(self).records(), final(self).records(), old(self).limit() as int),
            match r {
                Some(id) => exists|i: int|
                    first_awaiting(old(self).records(), i) && #[trigger] old(self).records()[i].id == id
                        && final(self).records() == old(self).records().update(
                        i,
                        TaskRecord { claimed: true, ..old(self).records()[i] },
                    ),
                None => final(self).records() == old(self).records() && forall|i: int|
                    0 <= i < old(self).records().len() ==> !awaits_worker(
                        #[trigger] old(self).records()[i],
                    ),
            },
    {
        let ghost a = self.records();
        proof {
            lemma_change_alone(a, a, self.limit() as int);
        }
        match self.store.first_unclaimed() {
            None => None,
            Some(k) => {
                let ghost pre = *self;
                let id = self.store.at(k).id;
                proof {
                    assert(self.store.records()[k as int].wf());
                }
                self.store.tasks[k].claimed = true;
                proof {
                    let nr = TaskRecord { claimed: true, ..a[k as int] };
                    assert(self.records() =~= a.update(k as int, nr));
                    Self::lemma_update_wf(&pre, self, k as int, nr);
                    lemma_single_update(a, k as int, nr);
                    lemma_change_alone(a, self.records(), self.limit() as int);
                    assert(first_awaiting(a, k as int) && a[k as int].id == id);
                }
                Some(id)
            },
        }
    }

    /// Deletes a task whose state is terminal (`Succeeded`, `Cancelled` or
    /// `Failed`) and returns its record. Any other state fails with
    /// `InvalidStateTransition`, an unknown id with `NotFound`, and then
    /// nothing changes.
    pub fn remove_task(&mut self, id: u64) -> (r: Result<TaskRecord, SchedulerError>)
        requires
            old(self).wf(),
        ensures
            final(self).wf(),
            final(self).same_settings(old(self)),
            !old(self).has_task(id) ==> r == Err::<TaskRecord, SchedulerError>(
                SchedulerError::NotFound,
            ) && final(self).records() == old(self).records(),
            forall|i: int|
                0 <= i < old(self).records().len() && old(self).records()[i].id == id ==> if crate::store::is_terminal(
                    old(self).records()[i].state,
                ) {
                    r == Ok::<TaskRecord, SchedulerError>(old(self).records()[i]) && final(self).records() == old(self).records().remove(i)
                } else {
                    r == Err::<TaskRecord, SchedulerError>(SchedulerError::InvalidStateTransition)
                        && final(self).records() == old(self).records()
                },
    {
        let ghost a = self.records();
        match self.store.find(id) {
            None => self.store.remove(id),
            Some(i) => {
                proof {
                    self.store.lemma_unique(i as int);
                }
                let r = self.store.remove(id);
                proof {
                    assert(old(self).store.records()[i as int].id == id);
                    let b = self.records();
                    if b != a {
                        assert(b == a.remove(i as int));
                        assert forall|k: int| 0 <= k < b.len() implies (#[trigger] b[k]).id
                            < self.next_id && b[k].attempt_count <= self.max_attempts by {
                            if k < i {
                                assert(b[k] == a[k]);
                            } else {
                                assert(b[k] == a[k + 1]);
                            }
                        }
                    }
                    assert forall|j: int| 0 <= j < a.len() && a[j].id == id implies j == i by {}
                }
                r
            },
        }
    }

    /// The worker's decision before each chunk of an uploading task. A cancel
    /// request ends the task as `Cancelled` (checkpoints discarded), a pause
    /// request as `Paused` (checkpoints kept), a fully acknowledged payload as
    /// `Succeeded`; each frees the slot and admits waiting tasks. Otherwise
    /// the next chunk starts at the checkpoint of the first part that is not
    /// yet complete. A task that is not uploading fails with
    /// `InvalidStateTransition`, an unknown id with `NotFound`, and then
    /// nothing changes.
    pub fn next_step(&mut self, id: u64, now: u64) -> (r: Result<WorkerStep, SchedulerError>)
        requires
            old(self).wf(),
        ensures
            final(self).wf(),
            final(self).same_settings(old(self)),
            lawful_change(old(self).records(), final(self).records(), old(self).limit() as int),
            !old(self).has_task(id) ==> r == Err::<WorkerStep, SchedulerError>(
                SchedulerError::NotFound,
            ) && final(self).records() == old(self).records(),
            forall|i: int|
                0 <= i < old(self).records().len() && old(self).records()[i].id == id ==> {
                    let rec = old(self).records()[i];
                    if rec.state != TaskState::Uploading {
                        r == Err::<WorkerStep, SchedulerError>(
                            SchedulerError::InvalidStateTransition,
                        ) && final(self).records() == old(self).records()
                    } else if rec.cancel_requested {
                        &&& r == Ok::<WorkerStep, SchedulerError>(
                            WorkerStep::Stop(TaskState::Cancelled),
                        )
                        &&& is_cancelled_form(final(self).records()[i], rec, now)
                        &&& admission_result(
                            old(self).records().update(i, final(self).records()[i]),
                            final(self).records(),
                            old(self).limit() as int,
                            now,
                        )
                    } else if rec.pause_requested {
                        &&& r == Ok::<WorkerStep, SchedulerError>(
                            WorkerStep::Stop(TaskState::Paused),
                        )
                        &&& admission_result(
                            old(self).records().update(i, paused(rec)),
                            final(self).records(),
                            old(self).limit() as int,
                            now,
                        )
                    } else if rec.all_acknowledged() {
                        &&& r == Ok::<WorkerStep, SchedulerError>(
                            WorkerStep::Stop(TaskState::Succeeded),
                        )
                        &&& admission_result(
                            old(self).records().update(i, succeeded(rec, now)),
                            final(self).records(),
                            old(self).limit() as int,
                            now,
                        )
                    } else {
                        &&& final(self).records() == old(self).records()
                        &&& match r {
                            Ok(WorkerStep::Send { part, offset, len }) => {
                                &&& part < rec.parts@.len()
                                &&& rec.checkpoints@[part as int] < rec.parts@[part as int].size
                                &&& forall|j: int|
                                    0 <= j < part ==> rec.checkpoints@[j] == rec.parts@[j].size
                                &&& offset == rec.checkpoints@[part as int]
                                &&& len == if old(self).chunk_size() < rec.parts@[part as int].size
                                    - offset {
                                    old(self).chunk_size()
                                } else {
                                    (rec.parts@[part as int].size - offset) as nat
                                }
                            },
                            _ => false,
                        }
                    }
                },
    {
        let ghost a = self.records();
        proof {
            lemma_change_alone(a, a, self.limit() as int);
        }
        let i = match self.store.find(id) {
            None => {
                return Err(SchedulerError::NotFound);
            },
            Some(i) => i,
        };
        proof {
            self.store.lemma_unique(i as int);
            assert(self.store.records()[i as int].wf());
        }
        if self.store.at(i).state != TaskState::Uploading {
            return Err(SchedulerError::InvalidStateTransition);
        }
        let ghost pre = *self;
        let ghost rec = a[i as int];
        if self.store.at(i).cancel_requested {
            let _ = self.store.transition_at(i, TaskEvent::Cancel);
            let n = self.store.at(i).checkpoints.len();
            self.store.tasks[i].checkpoints = zeroes(n);
            self.store.tasks[i].finished_at = Some(now);
            proof {
                let nr = self.records()[i as int];
                assert(is_cancelled_form(nr, rec, now));
                assert(self.records() =~= a.update(i as int, nr));
                Self::lemma_update_wf(&pre, self, i as int, nr);
                lemma_single_update(a, i as int, nr);
            }
            let ghost b = self.records();
            self.dispatch(now);
            proof {
                lemma_change_then_admission(a, b, self.records(), old(self).limit() as int, now);
            }
            return Ok(WorkerStep::Stop(TaskState::Cancelled));
        }
        if self.store.at(i).pause_requested {
            let _ = self.store.transition_at(i, TaskEvent::Pause);
            proof {
                let nr = paused(rec);
                assert(self.records() =~= a.update(i as int, nr));
                Self::lemma_update_wf(&pre, self, i as int, nr);
                lemma_single_update(a, i as int, nr);
            }
            let ghost b = self.records();
            self.dispatch(now);
            proof {
                lemma_change_then_admission(a, b, self.records(), old(self).limit() as int, now);
            }
            return Ok(WorkerStep::Stop(TaskState::Paused));
        }
        match self.store.at(i).next_part() {
            None => {
                let _ = self.store.transition_at(i, TaskEvent::Complete);
                self.store.tasks[i].finished_at = Some(now);
                proof {
                    let nr = succeeded(rec, now);
                    assert(self.records() =~= a.update(i as int, nr));
                    Self::lemma_update_wf(&pre, self, i as int, nr);
                    lemma_single_update(a, i as int, nr);
                }
                let ghost b = self.records();
                self.dispatch(now);
                proof {
                    lemma_change_then_admission(a, b, self.records(), old(self).limit() as int, now);
                }
                Ok(WorkerStep::Stop(TaskState::Succeeded))
            },
            Some(p) => {
                let offset = self.store.at(i).checkpoints[p];
                let rest = self.store.at(i).parts[p].size - offset;
                let len = if self.chunk_size < rest {
                    self.chunk_size
                } else {
                    rest
                };
                proof {
                    assert(!rec.all_acknowledged());
                }
                Ok(WorkerStep::Send { part: p, offset, len })
            },
        }
    }

    /// Records the remote side's answer to a chunk of an uploading task.
    /// An acknowledgement advances the part's checkpoint, and only forward
    /// and within the part; an offset outside that range changes nothing. A
    /// transient failure counts an attempt: while attempts remain the task
    /// waits in the queue for the backoff delay, otherwise it fails. A fatal
    /// failure fails the task at once. A failure of the chunk in flight after
    /// a cancel request cancels the task instead (checkpoints discarded), and
    /// a transient one after a pause request pauses it (checkpoints kept), so
    /// no accepted request is lost. A failure frees the slot and admits
    /// waiting tasks. A task that is not uploading fails with
    /// `InvalidStateTransition`, an unknown id with `NotFound`, and then
    /// nothing changes.
    pub fn report_chunk(&mut self, id: u64, part: usize, outcome: ChunkOutcome, now: u64) -> (r:
        Result<(), SchedulerError>)
        requires
            old(self).wf(),
        ensures
            final(self).wf(),
            final(self).same_settings(old(self)),
            lawful_change(old(self).records(), final(self).records(), old(self).limit() as int),
            !old(self).has_task(id) ==> r == Err::<(), SchedulerError>(SchedulerError::NotFound)
                && final(self).records() == old(self).records(),
            forall|i: int|
                0 <= i < old(self).records().len() && old(self).records()[i].id == id ==> {
                    let rec = old(self).records()[i];
                    if rec.state != TaskState::Uploading {
                        r == Err::<(), SchedulerError>(SchedulerError::InvalidStateTransition)
                            && final(self).records() == old(self).records()
                    } else {
                        &&& r == Ok::<(), SchedulerError>(())
                        &&& match outcome {
                            ChunkOutcome::Ack(off) => if part < rec.parts@.len()
                                && rec.checkpoints@[part as int] < off && off
                                <= rec.parts@[part as int].size {
                                &&& final(self).records() == old(self).records().update(
                                    i,
                                    final(self).records()[i],
                                )
                                &&& final(self).records()[i] == TaskRecord {
                                    checkpoints: final(self).records()[i].checkpoints,
                                    ..rec
                                }
                                &&& final(self).records()[i].checkpoints@
                                    == rec.checkpoints@.update(part as int, off)
                            } else {
                                final(self).records() == old(self).records()
                            },
                            ChunkOutcome::Transient(msg) => if rec.cancel_requested {
                                &&& is_cancelled_form(final(self).records()[i], rec, now)
                                &&& admission_result(
                                    old(self).records().update(i, final(self).records()[i]),
                                    final(self).records(),
                                    old(self).limit() as int,
                                    now,
                                )
                            } else if rec.pause_requested {
                                admission_result(
                                    old(self).records().update(i, paused(rec)),
                                    final(self).records(),
                                    old(self).limit() as int,
                                    now,
                                )
                            } else {
                                let n = attempts_after_failure(
                                    rec.attempt_count,
                                    old(self).max_attempts() as u32,
                                );
                                if n < old(self).max_attempts() {
                                    admission_result(
                                        old(self).records().update(
                                            i,
                                            requeued(
                                                rec,
                                                n,
                                                msg,
                                                saturating_sum(now, backoff_ms(n as nat) as u64),
                                            ),
                                        ),
                                        final(self).records(),
                                        old(self).limit() as int,
                                        now,
                                    )
                                } else {
                                    admission_result(
                                        old(self).records().update(i, failed(rec, n, msg, now)),
                                        final(self).records(),
                                        old(self).limit() as int,
                                        now,
                                    )
                                }
                            },
                            ChunkOutcome::Fatal(msg) => if rec.cancel_requested {
                                &&& is_cancelled_form(final(self).records()[i], rec, now)
                                &&& admission_result(
                                    old(self).records().update(i, final(self).records()[i]),
                                    final(self).records(),
                                    old(self).limit() as int,
                                    now,
                                )
                            } else {
                                admission_result(
                                    old(self).records().update(
                                        i,
                                        failed(rec, rec.attempt_count, msg, now),
                                    ),
                                    final(self).records(),
                                    old(self).limit() as int,
                                    now,
                                )
                            },
                        }
                    }
                },
    {
        let ghost a = self.records();
        proof {
            lemma_change_alone(a, a, self.limit() as int);
        }
        let i = match self.store.find(id) {
            None => {
                return Err(SchedulerError::NotFound);
            },
            Some(i) => i,
        };
        proof {
            self.store.lemma_unique(i as int);
            assert(self.store.records()[i as int].wf());
        }
        if self.store.at(i).state != TaskState::Uploading {
            return Err(SchedulerError::InvalidStateTransition);
        }
        let ghost pre = *self;
        let ghost rec = a[i as int];
        let failure = match &outcome {
            ChunkOutcome::Ack(_) => false,
            _ => true,
        };
        let is_transient = match &outcome {
            ChunkOutcome::Transient(_) => true,
            _ => false,
        };
        if failure && self.store.at(i).cancel_requested {
            let _ = self.store.transition_at(i, TaskEvent::Cancel);
            let n = self.store.at(i).checkpoints.len();
            self.store.tasks[i].checkpoints = zeroes(n);
            self.store.tasks[i].finished_at = Some(now);
            proof {
                let nr = self.records()[i as int];
                assert(is_cancelled_form(nr, rec, now));
                assert(self.records() =~= a.update(i as int, nr));
                Self::lemma_update_wf(&pre, self, i as int, nr);
                lemma_single_update(a, i as int, nr);
            }
            let ghost b = self.records();
            self.dispatch(now);
            proof {
                lemma_change_then_admission(a, b, self.records(), old(self).limit() as int, now);
            }
            return Ok(());
        }
        if is_transient && self.store.at(i).pause_requested {
            let _ = self.store.transition_at(i, TaskEvent::Pause);
            proof {
                let nr = paused(rec);
                assert(self.records() =~= a.update(i as int, nr));
                Self::lemma_update_wf(&pre, self, i as int, nr);
                lemma_single_update(a, i as int, nr);
            }
            let ghost b = self.records();
            self.dispatch(now);
            proof {
                lemma_change_then_admission(a, b, self.records(), old(self).limit() as int, now);
            }
            return Ok(());
        }
        match outcome {
            ChunkOutcome::Ack(off) => {
                if part < self.store.at(i).parts.len() && self.store.at(i).checkpoints[part] < off
                    && off <= self.store.at(i).parts[part].size {
                    self.store.tasks[i].checkpoints.set(part, off);
                    proof {
                        let nr = self.records()[i as int];
                        lemma_sum_update(rec.checkpoints@, part as int, off);
                        assert(nr.checkpoints@ =~= rec.checkpoints@.update(part as int, off));
                        assert(self.records() =~= a.update(i as int, nr));
                        assert(crate::task::part_sizes(nr.parts@) == crate::task::part_sizes(rec.parts@));
                        assert forall|k: int| 0 <= k < nr.parts@.len() implies #[trigger] nr.checkpoints@[k]
                            <= nr.parts@[k].size by {
                            if k != part {
                                assert(nr.checkpoints@[k] == rec.checkpoints@[k]);
                            }
                        }
                        Self::lemma_update_wf(&pre, self, i as int, nr);
                        lemma_single_update(a, i as int, nr);
                        lemma_change_alone(a, self.records(), self.limit() as int);
                    }
                }
                Ok(())
            },
            ChunkOutcome::Transient(msg) => {
                let count = self.store.at(i).attempt_count;
                let n = if count >= self.max_attempts {
                    self.max_attempts
                } else {
                    count + 1
                };
                if n < self.max_attempts {
                    let ready = add_saturating(now, backoff_delay(n));
                    let _ = self.store.transition_at(i, TaskEvent::Requeue);
                    self.store.tasks[i].attempt_count = n;
                    self.store.tasks[i].last_error = Some(msg);
                    self.store.tasks[i].ready_at = ready;
                    proof {
                        let nr = requeued(rec, n, msg, ready);
                        assert(self.records() =~= a.update(i as int, nr));
                        Self::lemma_update_wf(&pre, self, i as int, nr);
                        lemma_single_update(a, i as int, nr);
                    }
                } else {
                    let _ = self.store.transition_at(i, TaskEvent::Fail);
                    self.store.tasks[i].attempt_count = n;
                    self.store.tasks[i].last_error = Some(msg);
                    self.store.tasks[i].finished_at = Some(now);
                    proof {
                        let nr = failed(rec, n, msg, now);
                        assert(self.records() =~= a.update(i as int, nr));
                        Self::lemma_update_wf(&pre, self, i as int, nr);
                        lemma_single_update(a, i as int, nr);
                    }
                }
                let ghost b = self.records();
                self.dispatch(now);
                proof {
                    lemma_change_then_admission(a, b, self.records(), old(self).limit() as int, now);
                }
                Ok(())
            },
            ChunkOutcome::Fatal(msg) => {
                let _ = self.store.transition_at(i, TaskEvent::Fail);
                self.store.tasks[i].last_error = Some(msg);
                self.store.tasks[i].finished_at = Some(now);
                proof {
                    let nr = failed(rec, rec.attempt_count, msg, now);
                    assert(self.records() =~= a.update(i as int, nr));
                    Self::lemma_update_wf(&pre, self, i as int, nr);
                    lemma_single_update(a, i as int, nr);
                }
                let ghost b = self.records();
                self.dispatch(now);
                proof {
                    lemma_change_then_admission(a, b, self.records(), old(self).limit() as int, now);
                }
                Ok(())
            },
        }
    }
}

} // verus!
