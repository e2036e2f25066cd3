//! Upload tasks: their lifecycle states, the transition table between them,
//! and the record kept for each task.
use vstd::prelude::*;

verus! {

/// Lifecycle state of an upload task.
#[derive(Clone, Copy, Debug, PartialEq, Eq, Structural)]
pub enum TaskState {
    Pending,
    Uploading,
    Paused,
    Failed,
    Succeeded,
    Cancelled,
}

/// Something that happens to a task and may move it to another state.
#[derive(Clone, Copy, Debug, PartialEq, Eq, Structural)]
pub enum TaskEvent {
    /// The dispatcher gives the task a concurrency slot.
    Admit,
    /// Every part of the payload has been acknowledged.
    Complete,
    /// An unrecoverable error, or the attempt limit was reached.
    Fail,
    /// A transient error while attempts remain: back to the queue.
    Requeue,
    /// The caller asked to pause.
    Pause,
    /// The caller asked to cancel.
    Cancel,
    /// The caller asked to start a paused task again.
    Start,
    /// The caller asked to retry a failed task.
    Retry,
}

/// The transition table: the state that `ev` leads to from `from`, or `None`
/// where the table has no row for the pair.
pub open spec fn transition_target(from: TaskState, ev: TaskEvent) -> Option<TaskState> {
    match (from, ev) {
        (TaskState::Pending, TaskEvent::Admit) => Some(TaskState::Uploading),
        (TaskState::Uploading, TaskEvent::Complete) => Some(TaskState::Succeeded),
        (TaskState::Uploading, TaskEvent::Fail) => Some(TaskState::Failed),
        (TaskState::Uploading, TaskEvent::Requeue) => Some(TaskState::Pending),
        (TaskState::Uploading, TaskEvent::Pause) => Some(TaskState::Paused),
        (TaskState::Uploading, TaskEvent::Cancel) => Some(TaskState::Cancelled),
        (TaskState::Paused, TaskEvent::Start) => Some(TaskState::Pending),
        (TaskState::Paused, TaskEvent::Cancel) => Some(TaskState::Cancelled),
        (TaskState::Failed, TaskEvent::Retry) => Some(TaskState::Pending),
        (TaskState::Pending, TaskEvent::Cancel) => Some(TaskState::Cancelled),
        _ => None,
    }
}

/// Executable form of the transition table.
pub fn next_state(from: TaskState, ev: TaskEvent) -> (r: Option<TaskState>)
    ensures
        r == transition_target(from, ev),
{
    match (from, ev) {
        (TaskState::Pending, TaskEvent::Admit) => Some(TaskState::Uploading),
        (TaskState::Uploading, TaskEvent::Complete) => Some(TaskState::Succeeded),
        (TaskState::Uploading, TaskEvent::Fail) => Some(TaskState::Failed),
        (TaskState::Uploading, TaskEvent::Requeue) => Some(TaskState::Pending),
        (TaskState::Uploading, TaskEvent::Pause) => Some(TaskState::Paused),
        (TaskState::Uploading, TaskEvent::Cancel) => Some(TaskState::Cancelled),
        (TaskState::Paused, TaskEvent::Start) => Some(TaskState::Pending),
        (TaskState::Paused, TaskEvent::Cancel) => Some(TaskState::Cancelled),
        (TaskState::Failed, TaskEvent::Retry) => Some(TaskState::Pending),
        (TaskState::Pending, TaskEvent::Cancel) => Some(TaskState::Cancelled),
        _ => None,
    }
}


/// One file of a task's payload.
pub struct FilePart {
    /// Where the file is read from.
    pub path: String,
    /// Title shown for this part.
    pub title: String,
    /// Size of the file in bytes.
    pub size: u64,
}

/// One upload job and everything the scheduler knows about it.
pub struct TaskRecord {
    /// Unique identifier, assigned at creation and never reused.
    pub id: u64,
    /// Account the job is submitted under.
    pub owner: u64,
    /// Name of the metadata template the job uses.
    pub template: String,
    /// The files to transfer, in order.
    pub parts: Vec<FilePart>,
    pub state: TaskState,
    /// Per part, the byte count the remote side has acknowledged.
    pub checkpoints: Vec<u64>,
    /// Number of attempts that ended in a transient failure.
    pub attempt_count: u32,
    /// Description of the last failure, cleared when the task is started again.
    pub last_error: Option<String>,
    pub created_at: u64,
    pub started_at: Option<u64>,
    pub finished_at: Option<u64>,
    /// Earliest time at which the dispatcher may admit the task (backoff).
    pub ready_at: u64,
    /// A pause was asked for; the worker stops at the next chunk boundary.
    pub pause_requested: bool,
    /// A cancel was asked for; the worker stops at the next chunk boundary.
    pub cancel_requested: bool,
    /// A worker has been handed this admission.
    pub claimed: bool,
}

/// Sum of a sequence of byte counts.
pub open spec fn sum_u64(s: Seq<u64>) -> int
    decreases s.len(),
{
    if s.len() == 0 {
        0
    } else {
        sum_u64(s.drop_last()) + s.last()
    }
}

/// The sizes of the parts, in order.
pub open spec fn part_sizes(parts: Seq<FilePart>) -> Seq<u64> {
    Seq::new(parts.len(), |i: int| parts[i].size)
}

/// Total payload size in bytes.
pub open spec fn total_size(parts: Seq<FilePart>) -> int {
    sum_u64(part_sizes(parts))
}

impl TaskRecord {
    /// Bytes acknowledged so far, over all parts.
    pub open spec fn progress(&self) -> int {
        sum_u64(self.checkpoints@)
    }

    /// Bytes of the whole payload.
    pub open spec fn total(&self) -> int {
        total_size(self.parts@)
    }

    /// Every part has been acknowledged in full.
    pub open spec fn all_acknowledged(&self) -> bool {
        forall|i: int| 0 <= i < self.parts@.len() ==> self.checkpoints@[i] == self.parts@[i].size
    }

    /// The record's own invariant: one checkpoint per part, never beyond the
    /// part's size; a total that fits in 64 bits; signals and a worker only while uploading.
    pub open spec fn wf(&self) -> bool {
        &&& self.checkpoints@.len() == self.parts@.len()
        &&& forall|i: int|
            0 <= i < self.parts@.len() ==> #[trigger] self.checkpoints@[i] <= self.parts@[i].size
        &&& self.total() <= u64::MAX
        &&& (self.pause_requested || self.cancel_requested || self.claimed) ==> self.state
            == TaskState::Uploading
    }
}

/// Sums are never negative.
pub proof fn lemma_sum_nonneg(s: Seq<u64>)
    ensures
        sum_u64(s) >= 0,
    decreases s.len(),
{
    if s.len() > 0 {
        lemma_sum_nonneg(s.drop_last());
    }
}

/// The sum of a prefix grows by the next element and never exceeds the whole.
pub proof fn lemma_sum_prefix(s: Seq<u64>, k: int)
    requires
        0 <= k < s.len(),
    ensures
        sum_u64(s.take(k + 1)) == sum_u64(s.take(k)) + s[k],
        sum_u64(s.take(k + 1)) <= sum_u64(s),
    decreases s.len(),
{
    assert(s.take(k + 1).drop_last() =~= s.take(k));
    if k + 1 < s.len() {
        lemma_sum_prefix(s.drop_last(), k);
        assert(s.drop_last().take(k + 1) =~= s.take(k + 1));
        lemma_sum_nonneg(s.drop_last());
    } else {
        assert(s.take(k + 1) =~= s);
    }
}

/// A sequence bounded pointwise by another has a sum bounded by the other's.
pub proof fn lemma_sum_pointwise_le(a: Seq<u64>, b: Seq<u64>)
    requires
        a.len() == b.len(),
        forall|i: int| 0 <= i < a.len() ==> a[i] <= b[i],
    ensures
        sum_u64(a) <= sum_u64(b),
    decreases a.len(),
{
    if a.len() > 0 {
        lemma_sum_pointwise_le(a.drop_last(), b.drop_last());
    }
}

/// Replacing one element changes the sum by the difference.
pub proof fn lemma_sum_update(s: Seq<u64>, i: int, v: u64)
    requires
        0 <= i < s.len(),
    ensures
        sum_u64(s.update(i, v)) == sum_u64(s) - s[i] + v,
    decreases s.len(),
{
    if i < s.len() - 1 {
        lemma_sum_update(s.drop_last(), i, v);
        assert(s.update(i, v).drop_last() =~= s.drop_last().update(i, v));
    } else {
        assert(s.update(i, v).drop_last() =~= s.drop_last());
    }
}

/// A well-formed record's progress lies between zero and its total.
pub proof fn lemma_progress_bounded(r: TaskRecord)
    requires
        r.wf(),
    ensures
        0 <= r.progress() <= r.total() <= u64::MAX,
{
    lemma_sum_nonneg(r.checkpoints@);
    lemma_sum_pointwise_le(r.checkpoints@, part_sizes(r.parts@));
}


/// Total size of a payload, or `None` where it does not fit in 64 bits.
pub fn payload_total(parts: &Vec<FilePart>) -> (r: Option<u64>)
    ensures
        match r {
            Some(t) => t == total_size(parts@),
            None => total_size(parts@) > u64::MAX,
        },
{
    let ghost sizes = part_sizes(parts@);
    let mut acc: u64 = 0;
    let mut k: usize = 0;
    while k < parts.len()
        invariant
            0 <= k <= parts@.len(),
            sizes == part_sizes(parts@),
            acc == sum_u64(sizes.take(k as int)),
        decreases parts@.len() - k,
    {
        proof {
            lemma_sum_prefix(sizes, k as int);
        }
        let size = parts[k].size;
        if size > u64::MAX - acc {
            return None;
        }
        acc = acc + size;
        k = k + 1;
    }
    proof {
        assert(sizes.take(k as int) =~= sizes);
    }
    Some(acc)
}

impl TaskRecord {
    /// A new pending record with nothing acknowledged, or `None` where the
    /// payload's total size does not fit in 64 bits.
    pub fn new(id: u64, owner: u64, template: String, parts: Vec<FilePart>, now: u64) -> (r: Option<
        TaskRecord,
    >)
        ensures
            match r {
                Some(rec) => {
                    &&& rec.wf()
                    &&& rec.id == id
                    &&& rec.owner == owner
                    &&& rec.template == template
                    &&& rec.parts == parts
                    &&& rec.state == TaskState::Pending
                    &&& rec.checkpoints@ == Seq::new(parts@.len(), |i: int| 0u64)
                    &&& rec.attempt_count == 0
                    &&& rec.last_error.is_none()
                    &&& rec.created_at == now
                    &&& rec.started_at.is_none()
                    &&& rec.finished_at.is_none()
                    &&& rec.ready_at == now
                    &&& !rec.pause_requested
                    &&& !rec.cancel_requested
                    &&& !rec.claimed
                },
                None => total_size(parts@) > u64::MAX,
            },
    {
        match payload_total(&parts) {
            None => None,
            Some(_) => {
                let checkpoints = zeroes(parts.len());
                Some(
                    TaskRecord {
                        id,
                        owner,
                        template,
                        parts,
                        state: TaskState::Pending,
                        checkpoints,
                        attempt_count: 0,
                        last_error: None,
                        created_at: now,
                        started_at: None,
                        finished_at: None,
                        ready_at: now,
                        pause_requested: false,
                        cancel_requested: false,
                        claimed: false,
                    },
                )
            },
        }
    }

    /// Bytes acknowledged so far, over all parts.
    pub fn bytes_done(&self) -> (r: u64)
        requires
            self.wf(),
        ensures
            r == self.progress(),
    {
        proof {
            lemma_progress_bounded(*self);
        }
        let ghost cps = self.checkpoints@;
        let mut acc: u64 = 0;
        let mut k: usize = 0;
        while k < self.checkpoints.len()
            invariant
                0 <= k <= cps.len(),
                cps == self.checkpoints@,
                sum_u64(cps) <= u64::MAX,
                acc == sum_u64(cps.take(k as int)),
            decreases cps.len() - k,
        {
            proof {
                lemma_sum_prefix(cps, k as int);
            }
            acc = acc + self.checkpoints[k];
            k = k + 1;
        }
        proof {
            assert(cps.take(k as int) =~= cps);
        }
        acc
    }

    /// Bytes of the whole payload.
    pub fn total_bytes(&self) -> (r: u64)
        requires
            self.wf(),
        ensures
            r == self.total(),
    {
        match payload_total(&self.parts) {
            Some(t) => t,
            None => 0,
        }
    }

    /// The first part that is not yet acknowledged in full, if any.
    pub fn next_part(&self) -> (r: Option<usize>)
        requires
            self.wf(),
        ensures
            match r {
                Some(i) => {
                    &&& i < self.parts@.len()
                    &&& self.checkpoints@[i as int] < self.parts@[i as int].size
                    &&& forall|j: int|
                        0 <= j < i ==> self.checkpoints@[j] == self.parts@[j].size
                },
                None => self.all_acknowledged(),
            },
    {
        let mut k: usize = 0;
        while k < self.parts.len()
            invariant
                self.wf(),
                0 <= k <= self.parts@.len(),
                forall|j: int| 0 <= j < k ==> self.checkpoints@[j] == self.parts@[j].size,
            decreases self.parts@.len() - k,
        {
            if self.checkpoints[k] < self.parts[k].size {
                return Some(k);
            }
            k = k + 1;
        }
        None
    }
}

/// A vector of `n` zeroes.
pub fn zeroes(n: usize) -> (r: Vec<u64>)
    ensures
        r@ == Seq::new(n as nat, |i: int| 0u64),
{
    let mut v: Vec<u64> = Vec::new();
    let mut k: usize = 0;
    while k < n
        invariant
            k <= n,
            v@ == Seq::new(k as nat, |i: int| 0u64),
        decreases n - k,
    {
        v.push(0);
        k = k + 1;
        proof {
            assert(v@ =~= Seq::new(k as nat, |i: int| 0u64));
        }
    }
    v
}

} // verus!
