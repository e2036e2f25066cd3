//! What each command and worker decision does to a record, and the rules
//! every change of the task collection obeys.
use vstd::prelude::*;

use crate::queue::{admission_step, admitted, eligible, uploading_count};
use crate::store::moved;
use crate::task::{TaskRecord, TaskState};

verus! {

/// Smallest delay before an automatic retry, in milliseconds.
pub const BACKOFF_BASE_MS: u64 = 1000;

/// Largest delay before an automatic retry, in milliseconds.
pub const BACKOFF_CAP_MS: u64 = 60000;

/// Delay before the automatic retry that follows transient failure number
/// `attempt`: doubling from the base, capped.
pub open spec fn backoff_ms(attempt: nat) -> nat
    decreases attempt,
{
    if attempt <= 1 {
        BACKOFF_BASE_MS as nat
    } else {
        let d = 2 * backoff_ms((attempt - 1) as nat);
        if d > BACKOFF_CAP_MS {
            BACKOFF_CAP_MS as nat
        } else {
            d
        }
    }
}

/// `a + b`, or `u64::MAX` where the sum does not fit.
pub open spec fn saturating_sum(a: u64, b: u64) -> u64 {
    if a + b > u64::MAX {
        u64::MAX
    } else {
        (a + b) as u64
    }
}

/// A paused record put back in the queue by a start request at `now`; the
/// last error is cleared.
pub open spec fn restarted(r: TaskRecord, now: u64) -> TaskRecord {
    TaskRecord { last_error: None, ready_at: now, ..moved(r, TaskState::Pending) }
}

/// A failed record put back in the queue by a retry request at `now`; the
/// attempt count is kept.
pub open spec fn retried(r: TaskRecord, now: u64) -> TaskRecord {
    TaskRecord { last_error: None, finished_at: None, ready_at: now, ..moved(r, TaskState::Pending) }
}

/// An uploading record with a pause asked for.
pub open spec fn pause_marked(r: TaskRecord) -> TaskRecord {
    TaskRecord { pause_requested: true, ..r }
}

/// An uploading record with a cancel asked for.
pub open spec fn cancel_marked(r: TaskRecord) -> TaskRecord {
    TaskRecord { cancel_requested: true, ..r }
}

/// `c` is `r` cancelled at `now`: its checkpoints are discarded.
pub open spec fn is_cancelled_form(c: TaskRecord, r: TaskRecord, now: u64) -> bool {
    &&& c == TaskRecord {
        checkpoints: c.checkpoints,
        finished_at: Some(now),
        ..moved(r, TaskState::Cancelled)
    }
    &&& c.checkpoints@ == Seq::new(r.checkpoints@.len(), |i: int| 0u64)
}

/// An uploading record stopped at a chunk boundary by a pause request; the
/// checkpoints are kept.
pub open spec fn paused(r: TaskRecord) -> TaskRecord {
    moved(r, TaskState::Paused)
}

/// An uploading record whose payload was acknowledged in full by `now`.
pub open spec fn succeeded(r: TaskRecord, now: u64) -> TaskRecord {
    TaskRecord { finished_at: Some(now), ..moved(r, TaskState::Succeeded) }
}

/// An uploading record back in the queue after a transient failure, with
/// attempt count `attempts`, error `msg`, admissible again from `ready`.
pub open spec fn requeued(r: TaskRecord, attempts: u32, msg: String, ready: u64) -> TaskRecord {
    TaskRecord {
        attempt_count: attempts,
        last_error: Some(msg),
        ready_at: ready,
        ..moved(r, TaskState::Pending)
    }
}

/// An uploading record failed at `now` with attempt count `attempts` and
/// error `msg`; the checkpoints are kept.
pub open spec fn failed(r: TaskRecord, attempts: u32, msg: String, now: u64) -> TaskRecord {
    TaskRecord {
        attempt_count: attempts,
        last_error: Some(msg),
        finished_at: Some(now),
        ..moved(r, TaskState::Failed)
    }
}

/// The rows of the transition table, as pairs of states.
pub open spec fn is_table_row(from: TaskState, to: TaskState) -> bool {
    match (from, to) {
        (TaskState::Pending, TaskState::Uploading) => true,
        (TaskState::Uploading, TaskState::Succeeded) => true,
        (TaskState::Uploading, TaskState::Failed) => true,
        (TaskState::Uploading, TaskState::Pending) => true,
        (TaskState::Uploading, TaskState::Paused) => true,
        (TaskState::Uploading, TaskState::Cancelled) => true,
        (TaskState::Paused, TaskState::Pending) => true,
        (TaskState::Paused, TaskState::Cancelled) => true,
        (TaskState::Failed, TaskState::Pending) => true,
        (TaskState::Pending, TaskState::Cancelled) => true,
        _ => false,
    }
}

/// A state change one call may make: none, one row of the table, or a row
/// into `Pending` followed by admission in the same call.
pub open spec fn conforms(from: TaskState, to: TaskState) -> bool {
    from == to || is_table_row(from, to) || (is_table_row(from, TaskState::Pending) && to
        == TaskState::Uploading)
}

/// The change a command makes before the dispatcher runs: identifiers kept,
/// each state kept or moved along one row, progress kept except by a cancel,
/// and no record newly holding a slot.
pub open spec fn single_change(before: Seq<TaskRecord>, after: Seq<TaskRecord>) -> bool {
    &&& after.len() == before.len()
    &&& forall|i: int|
        0 <= i < before.len() ==> {
            &&& (#[trigger] after[i]).id == before[i].id
            &&& (before[i].state == after[i].state || is_table_row(before[i].state, after[i].state))
            &&& after[i].state != TaskState::Cancelled ==> after[i].progress() >= before[i].progress()
            &&& after[i].state == TaskState::Uploading ==> before[i].state == TaskState::Uploading
        }
}

/// The rules every call obeys: identifiers kept, every state change conforms
/// to the table, no uploading task loses progress, and the number of
/// uploading tasks ends within `limit` or does not grow.
pub open spec fn lawful_change(before: Seq<TaskRecord>, after: Seq<TaskRecord>, limit: int) -> bool {
    &&& after.len() == before.len()
    &&& forall|i: int|
        0 <= i < before.len() ==> {
            &&& (#[trigger] after[i]).id == before[i].id
            &&& conforms(before[i].state, after[i].state)
            &&& (before[i].state == TaskState::Uploading && after[i].state == TaskState::Uploading)
                ==> after[i].progress() >= before[i].progress()
        }
    &&& uploading_count(after) <= limit || uploading_count(after) <= uploading_count(before)
}

/// A change that may also append records (a task creation): the records
/// already there obey the rules of `lawful_change`, and the number of
/// uploading tasks ends within `limit` or does not grow.
pub open spec fn lawful_growth(before: Seq<TaskRecord>, after: Seq<TaskRecord>, limit: int) -> bool {
    &&& after.len() >= before.len()
    &&& forall|i: int|
        0 <= i < before.len() ==> {
            &&& (#[trigger] after[i]).id == before[i].id
            &&& conforms(before[i].state, after[i].state)
            &&& (before[i].state == TaskState::Uploading && after[i].state == TaskState::Uploading)
                ==> after[i].progress() >= before[i].progress()
        }
    &&& uploading_count(after) <= limit || uploading_count(after) <= uploading_count(before)
}

/// A change that keeps the number of records is a growth by nothing.
pub proof fn lemma_change_is_growth(before: Seq<TaskRecord>, after: Seq<TaskRecord>, limit: int)
    requires
        lawful_change(before, after, limit),
    ensures
        lawful_growth(before, after, limit),
{
}

/// No record that holds no slot gains one, so the slot count does not grow.
pub proof fn lemma_count_no_new_slots(a: Seq<TaskRecord>, b: Seq<TaskRecord>)
    requires
        a.len() == b.len(),
        forall|i: int|
            0 <= i < a.len() && (#[trigger] b[i]).state == TaskState::Uploading ==> a[i].state
                == TaskState::Uploading,
    ensures
        uploading_count(b) <= uploading_count(a),
    decreases a.len(),
{
    if a.len() > 0 {
        assert forall|i: int|
            0 <= i < a.drop_last().len() && (#[trigger] b.drop_last()[i]).state
                == TaskState::Uploading implies a.drop_last()[i].state == TaskState::Uploading by {
            assert(b.drop_last()[i] == b[i]);
        }
        lemma_count_no_new_slots(a.drop_last(), b.drop_last());
        assert(b.last() == b[b.len() - 1]);
    }
}

/// A command's own change followed by an admission round obeys the rules.
pub proof fn lemma_change_then_admission(
    a: Seq<TaskRecord>,
    b: Seq<TaskRecord>,
    c: Seq<TaskRecord>,
    limit: int,
    now: u64,
)
    requires
        single_change(a, b),
        admission_step(b, c, limit, now),
    ensures
        lawful_change(a, c, limit),
{
    lemma_count_no_new_slots(a, b);
    assert forall|i: int| 0 <= i < a.len() implies {
        &&& (#[trigger] c[i]).id == a[i].id
        &&& conforms(a[i].state, c[i].state)
        &&& (a[i].state == TaskState::Uploading && c[i].state == TaskState::Uploading)
            ==> c[i].progress() >= a[i].progress()
    } by {
        assert(b[i].id == a[i].id);
        if c[i] != b[i] {
            assert(eligible(b[i], now) && c[i] == admitted(b[i], now));
        }
    }
}

/// A command's own change, with no admission round after it, obeys the rules.
pub proof fn lemma_change_alone(a: Seq<TaskRecord>, b: Seq<TaskRecord>, limit: int)
    requires
        single_change(a, b),
    ensures
        lawful_change(a, b, limit),
{
    lemma_count_no_new_slots(a, b);
    assert forall|i: int| 0 <= i < a.len() implies {
        &&& (#[trigger] b[i]).id == a[i].id
        &&& conforms(a[i].state, b[i].state)
        &&& (a[i].state == TaskState::Uploading && b[i].state == TaskState::Uploading)
            ==> b[i].progress() >= a[i].progress()
    } by {}
}

/// Changing the record at one position along one row, keeping its
/// identifier and progress (or cancelling it), is a single change.
pub proof fn lemma_single_update(s: Seq<TaskRecord>, i: int, r: TaskRecord)
    requires
        0 <= i < s.len(),
        r.id == s[i].id,
        s[i].state == r.state || is_table_row(s[i].state, r.state),
        r.state != TaskState::Cancelled ==> r.progress() >= s[i].progress(),
        r.state == TaskState::Uploading ==> s[i].state == TaskState::Uploading,
    ensures
        single_change(s, s.update(i, r)),
{
    assert forall|k: int| 0 <= k < s.len() implies {
        &&& (#[trigger] s.update(i, r)[k]).id == s[k].id
        &&& (s[k].state == s.update(i, r)[k].state || is_table_row(s[k].state, s.update(i, r)[k].state))
        &&& s.update(i, r)[k].state != TaskState::Cancelled ==> s.update(i, r)[k].progress() >= s[k].progress()
        &&& s.update(i, r)[k].state == TaskState::Uploading ==> s[k].state == TaskState::Uploading
    } by {}
}

/// Leaving everything as it was is a single change.
pub proof fn lemma_no_change(s: Seq<TaskRecord>)
    ensures
        single_change(s, s),
{
}

} // verus!
