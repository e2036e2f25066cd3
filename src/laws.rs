//! Properties of the scheduler that relate several operations, stated over
//! the same spec functions the operations' contracts use, and proved.
use vstd::prelude::*;

use crate::lifecycle::{is_table_row, lawful_change, lawful_growth, paused, restarted};
use crate::queue::{admission_result, admitted, admitted_at, eligible, key_lt, uploading_count};
use crate::task::{lemma_progress_bounded, transition_target, TaskEvent, TaskRecord, TaskState};
use crate::upload_service::attempts_after_failure;

verus! {

/// The pairs of states that rules of the service allow are exactly the pairs
/// that some event of the transition table connects.
pub proof fn law_table_rows(from: TaskState, to: TaskState)
    ensures
        is_table_row(from, to) <==> exists|ev: TaskEvent| transition_target(from, ev) == Some(to),
{
    if is_table_row(from, to) {
        let ev = match (from, to) {
            (TaskState::Pending, TaskState::Uploading) => TaskEvent::Admit,
            (TaskState::Uploading, TaskState::Succeeded) => TaskEvent::Complete,
            (TaskState::Uploading, TaskState::Failed) => TaskEvent::Fail,
            (TaskState::Uploading, TaskState::Pending) => TaskEvent::Requeue,
            (TaskState::Uploading, TaskState::Paused) => TaskEvent::Pause,
            (TaskState::Paused, TaskState::Pending) => TaskEvent::Start,
            (TaskState::Failed, TaskState::Pending) => TaskEvent::Retry,
            _ => TaskEvent::Cancel,
        };
        assert(transition_target(from, ev) == Some(to));
    }
}

/// A failed task is never moved by the scheduler on its own: the only event
/// that leaves `Failed` is a caller's retry request.
pub proof fn law_failed_waits_for_retry(ev: TaskEvent)
    ensures
        transition_target(TaskState::Failed, ev) is Some <==> ev == TaskEvent::Retry,
        transition_target(TaskState::Failed, TaskEvent::Admit) is None,
{
}

/// Terminal states other than `Failed` have no way out at all.
pub proof fn law_terminal_states_final(ev: TaskEvent)
    ensures
        transition_target(TaskState::Succeeded, ev) is None,
        transition_target(TaskState::Cancelled, ev) is None,
{
}

/// Queue fairness: of two eligible tasks, the later one in queue order is
/// never admitted in a round that leaves the earlier one waiting.
pub proof fn law_fifo_admission(
    before: Seq<TaskRecord>,
    after: Seq<TaskRecord>,
    limit: int,
    now: u64,
    a: int,
    b: int,
)
    requires
        admission_result(before, after, limit, now),
        0 <= a < before.len(),
        0 <= b < before.len(),
        eligible(before[a], now),
        eligible(before[b], now),
        key_lt(before[a], before[b]),
        after[b].state == TaskState::Uploading,
    ensures
        after[a].state == TaskState::Uploading,
{
    if after[a].state != TaskState::Uploading {
        assert(after[a] == before[a] || after[a] == admitted(before[a], now));
        assert(after[a] == before[a]);
        assert(admitted_at(before, after, b));
        assert(key_lt(before[b], before[a]));
    }
}

/// With free slots left after a round, nothing eligible is left waiting.
pub proof fn law_no_idle_slot(before: Seq<TaskRecord>, after: Seq<TaskRecord>, limit: int, now: u64, j: int)
    requires
        admission_result(before, after, limit, now),
        uploading_count(after) < limit,
        0 <= j < after.len(),
    ensures
        !eligible(after[j], now),
{
}

/// The slot bound is kept: when no more tasks upload than the limit allows
/// before a change that obeys the service's rules, none do after it.
pub proof fn law_slot_bound_kept(before: Seq<TaskRecord>, after: Seq<TaskRecord>, limit: int)
    requires
        lawful_change(before, after, limit),
        uploading_count(before) <= limit,
    ensures
        uploading_count(after) <= limit,
{
}

/// Every checkpoint of a well-formed record lies within its part, and the
/// progress within the payload.
pub proof fn law_checkpoints_within_parts(r: TaskRecord, i: int)
    requires
        r.wf(),
        0 <= i < r.parts@.len(),
    ensures
        r.checkpoints@[i] <= r.parts@[i].size,
        0 <= r.progress() <= r.total(),
{
    lemma_progress_bounded(r);
}

/// Resuming: a task paused at a chunk boundary, started again and admitted
/// again keeps every checkpoint, so its worker's next chunk starts where the
/// acknowledged bytes end.
pub proof fn law_resume_keeps_checkpoints(r: TaskRecord, start_time: u64, admit_time: u64)
    requires
        r.wf(),
        r.state == TaskState::Uploading,
    ensures
        admitted(restarted(paused(r), start_time), admit_time).checkpoints == r.checkpoints,
        admitted(restarted(paused(r), start_time), admit_time).parts == r.parts,
        admitted(restarted(paused(r), start_time), admit_time).progress() == r.progress(),
        admitted(restarted(paused(r), start_time), admit_time).state == TaskState::Uploading,
{
}

/// The attempt count after `k` transient failures in a row, from zero.
pub open spec fn attempts_after(k: nat, max: u32) -> u32
    decreases k,
{
    if k == 0 {
        0
    } else {
        attempts_after_failure(attempts_after((k - 1) as nat, max), max)
    }
}

/// Retry bound: after `k` transient failures in a row, at most `max`, the
/// attempt count is `k`; every failure before the `max`-th sends the task
/// back to the queue, and the `max`-th one fails it.
pub proof fn law_retry_bound(k: nat, max: u32)
    requires
        1 <= max,
        k <= max,
    ensures
        attempts_after(k, max) == k,
        1 <= k < max ==> attempts_after(k, max) < max,
        k == max ==> attempts_after(k, max) >= max,
    decreases k,
{
    if k > 0 {
        law_retry_bound((k - 1) as nat, max);
    }
}

/// A run of task-collection snapshots in which each one follows from the one
/// before by a call that obeys the service's rules under limit `limits[k]`:
/// task creation (`lawful_growth`) or any other call but the removal of a
/// finished task (`lawful_change`, which `lemma_change_is_growth` turns into
/// a growth by nothing).
pub open spec fn lawful_run(run: Seq<Seq<TaskRecord>>, limits: Seq<int>) -> bool {
    &&& run.len() == limits.len() + 1
    &&& forall|k: int| 0 <= k < limits.len() ==> lawful_growth(#[trigger] run[k], run[k + 1], limits[k])
}

/// Every snapshot of a lawful run keeps the first one's records in front, in
/// the same order of identifiers.
pub proof fn law_run_keeps_records(run: Seq<Seq<TaskRecord>>, limits: Seq<int>, k: int, i: int)
    requires
        lawful_run(run, limits),
        0 <= k < run.len(),
        0 <= i < run[0].len(),
    ensures
        run[k].len() >= run[0].len(),
        run[k][i].id == run[0][i].id,
    decreases k,
{
    if k > 0 {
        law_run_keeps_records(run, limits, k - 1, i);
        assert(lawful_growth(run[k - 1], run[k], limits[k - 1]));
    }
}

/// Progress across calls: a task that is uploading in every snapshot of a
/// lawful run ends with at least the progress it started with.
pub proof fn law_progress_kept_over_run(run: Seq<Seq<TaskRecord>>, limits: Seq<int>, i: int)
    requires
        lawful_run(run, limits),
        0 <= i < run[0].len(),
        forall|k: int| 0 <= k < run.len() ==> (#[trigger] run[k])[i].state == TaskState::Uploading,
    ensures
        run.last()[i].progress() >= run[0][i].progress(),
    decreases run.len(),
{
    if run.len() > 1 {
        let shorter = run.drop_last();
        let fewer = limits.drop_last();
        assert forall|k: int| 0 <= k < fewer.len() implies lawful_growth(
            #[trigger] shorter[k],
            shorter[k + 1],
            fewer[k],
        ) by {
            assert(lawful_growth(run[k], run[k + 1], limits[k]));
        }
        assert forall|k: int| 0 <= k < shorter.len() implies (#[trigger] shorter[k])[i].state
            == TaskState::Uploading by {
            assert(run[k][i].state == TaskState::Uploading);
        }
        law_progress_kept_over_run(shorter, fewer, i);
        let n = run.len() - 1;
        law_run_keeps_records(run, limits, n - 1, i);
        assert(lawful_growth(run[n - 1], run[n], limits[n - 1]));
        assert(run[n - 1][i].state == TaskState::Uploading);
        assert(run[n][i].state == TaskState::Uploading);
    }
}

/// Finished for good across calls: a task that is `Succeeded` or `Cancelled`
/// at the start of a lawful run is in the same state in every snapshot.
pub proof fn law_final_states_kept_over_run(run: Seq<Seq<TaskRecord>>, limits: Seq<int>, k: int, i: int)
    requires
        lawful_run(run, limits),
        0 <= k < run.len(),
        0 <= i < run[0].len(),
        run[0][i].state == TaskState::Succeeded || run[0][i].state == TaskState::Cancelled,
    ensures
        run[k][i].state == run[0][i].state,
    decreases k,
{
    if k > 0 {
        law_final_states_kept_over_run(run, limits, k - 1, i);
        law_run_keeps_records(run, limits, k - 1, i);
        assert(lawful_growth(run[k - 1], run[k], limits[k - 1]));
    }
}

/// The slot bound across calls: where no more tasks upload than the first
/// limit allows and the limit never drops, no snapshot has more.
pub proof fn law_slot_bound_over_run(run: Seq<Seq<TaskRecord>>, limits: Seq<int>, k: int)
    requires
        lawful_run(run, limits),
        limits.len() > 0,
        uploading_count(run[0]) <= limits[0],
        forall|a: int, b: int| 0 <= a <= b < limits.len() ==> limits[a] <= limits[b],
        0 <= k < limits.len(),
    ensures
        uploading_count(run[k + 1]) <= limits[k],
    decreases k,
{
    if k > 0 {
        law_slot_bound_over_run(run, limits, k - 1);
    }
    assert(lawful_growth(run[k], run[k + 1], limits[k]));
}

} // verus!
