//! The admission queue: which tasks occupy a slot, which wait, and in what
//! order the waiting ones are admitted.
use vstd::prelude::*;

use crate::store::{moved, TaskStore};
use crate::task::{TaskRecord, TaskState};

verus! {

/// 1 for a record that holds a slot, 0 otherwise.
pub open spec fn slot_of(r: TaskRecord) -> int {
    if r.state == TaskState::Uploading {
        1
    } else {
        0
    }
}

/// An uploading record that no worker has claimed yet.
pub open spec fn awaits_worker(r: TaskRecord) -> bool {
    r.state == TaskState::Uploading && !r.claimed
}

/// `i` is the first position in `s` of a record that awaits a worker.
pub open spec fn first_awaiting(s: Seq<TaskRecord>, i: int) -> bool {
    &&& 0 <= i < s.len()
    &&& awaits_worker(s[i])
    &&& forall|j: int| 0 <= j < i ==> !awaits_worker(#[trigger] s[j])
}

/// Number of records in state `Uploading`.
pub open spec fn uploading_count(s: Seq<TaskRecord>) -> int
    decreases s.len(),
{
    if s.len() == 0 {
        0
    } else {
        uploading_count(s.drop_last()) + slot_of(s.last())
    }
}

/// A pending record whose backoff has run out by `now`.
pub open spec fn eligible(r: TaskRecord, now: u64) -> bool {
    r.state == TaskState::Pending && r.ready_at <= now
}

/// Queue order: by creation time, ties broken by identifier.
pub open spec fn key_lt(a: TaskRecord, b: TaskRecord) -> bool {
    a.created_at < b.created_at || (a.created_at == b.created_at && a.id < b.id)
}

/// Record `r` once admitted at time `now`.
pub open spec fn admitted(r: TaskRecord, now: u64) -> TaskRecord {
    TaskRecord { started_at: Some(now), last_error: None, ..moved(r, TaskState::Uploading) }
}

/// Position `i` went from waiting to uploading between `before` and `after`.
pub open spec fn admitted_at(before: Seq<TaskRecord>, after: Seq<TaskRecord>, i: int) -> bool {
    before[i].state == TaskState::Pending && after[i].state == TaskState::Uploading
}

/// Part of an admission round: only eligible records were admitted, the
/// slot count stays within `limit` unless nothing changed, and everything
/// admitted precedes, in queue order, everything still eligible.
pub open spec fn admission_step(
    before: Seq<TaskRecord>,
    after: Seq<TaskRecord>,
    limit: int,
    now: u64,
) -> bool {
    &&& after.len() == before.len()
    &&& forall|i: int|
        0 <= i < before.len() ==> #[trigger] after[i] == before[i] || (eligible(before[i], now)
            && after[i] == admitted(before[i], now))
    &&& uploading_count(after) <= limit || after == before
    &&& forall|i: int, j: int|
        0 <= i < before.len() && 0 <= j < before.len() && admitted_at(before, after, i)
            && eligible(#[trigger] after[j], now) ==> key_lt(#[trigger] before[i], before[j])
}

/// A full admission round: an admission step after which either every slot
/// is taken or no eligible record is left.
pub open spec fn admission_result(
    before: Seq<TaskRecord>,
    after: Seq<TaskRecord>,
    limit: int,
    now: u64,
) -> bool {
    &&& admission_step(before, after, limit, now)
    &&& uploading_count(after) >= limit || forall|j: int|
        0 <= j < after.len() ==> !eligible(#[trigger] after[j], now)
}

/// Replacing one record changes the slot count by the difference of slots.
pub proof fn lemma_count_update(s: Seq<TaskRecord>, i: int, r: TaskRecord)
    requires
        0 <= i < s.len(),
    ensures
        uploading_count(s.update(i, r)) == uploading_count(s) - slot_of(s[i]) + slot_of(r),
    decreases s.len(),
{
    if i < s.len() - 1 {
        lemma_count_update(s.drop_last(), i, r);
        assert(s.update(i, r).drop_last() =~= s.drop_last().update(i, r));
    } else {
        assert(s.update(i, r).drop_last() =~= s.drop_last());
    }
}

/// The slot count of a prefix grows by the next record's slot.
pub proof fn lemma_count_prefix(s: Seq<TaskRecord>, k: int)
    requires
        0 <= k < s.len(),
    ensures
        uploading_count(s.take(k + 1)) == uploading_count(s.take(k)) + slot_of(s[k]),
{
    assert(s.take(k + 1).drop_last() =~= s.take(k));
}

impl TaskStore {
    /// Number of tasks that hold a slot.
    pub fn count_uploading(&self) -> (r: u64)
        ensures
            r == uploading_count(self.records()),
    {
        let ghost s = self.records();
        let mut n: u64 = 0;
        let mut k: usize = 0;
        while k < self.tasks.len()
            invariant
                s == self.records(),
                0 <= k <= s.len(),
                n == uploading_count(s.take(k as int)),
                n <= k,
            decreases s.len() - k,
        {
            proof {
                lemma_count_prefix(s, k as int);
            }
            if self.tasks[k].state == TaskState::Uploading {
                n = n + 1;
            }
            k = k + 1;
        }
        proof {
            assert(s.take(k as int) =~= s);
        }
        n
    }

    /// Position of the first record that awaits a worker.
    pub fn first_unclaimed(&self) -> (r: Option<usize>)
        ensures
            match r {
                Some(i) => first_awaiting(self.records(), i as int),
                None => forall|j: int|
                    0 <= j < self.records().len() ==> !awaits_worker(#[trigger] self.records()[j]),
            },
    {
        let mut k: usize = 0;
        while k < self.tasks.len()
            invariant
                k <= self.records().len(),
                forall|j: int| 0 <= j < k ==> !awaits_worker(#[trigger] self.records()[j]),
            decreases self.records().len() - k,
        {
            if self.tasks[k].state == TaskState::Uploading && !self.tasks[k].claimed {
                return Some(k);
            }
            k = k + 1;
        }
        None
    }

    /// Position of the first eligible record in queue order, if any.
    pub fn oldest_eligible(&self, now: u64) -> (r: Option<usize>)
        requires
            self.wf(),
        ensures
            match r {
                Some(i) => {
                    &&& i < self.records().len()
                    &&& eligible(self.records()[i as int], now)
                    &&& forall|j: int|
                        0 <= j < self.records().len() && j != i && eligible(
                            #[trigger] self.records()[j],
                            now,
                        ) ==> key_lt(self.records()[i as int], self.records()[j])
                },
                None => forall|j: int|
                    0 <= j < self.records().len() ==> !eligible(#[trigger] self.records()[j], now),
            },
    {
        let mut best: Option<usize> = None;
        let mut k: usize = 0;
        while k < self.tasks.len()
            invariant
                self.wf(),
                0 <= k <= self.records().len(),
                match best {
                    Some(b) => {
                        &&& b < k
                        &&& eligible(self.records()[b as int], now)
                        &&& forall|j: int|
                            0 <= j < k && j != b && eligible(#[trigger] self.records()[j], now)
                                ==> key_lt(self.records()[b as int], self.records()[j])
                    },
                    None => forall|j: int|
                        0 <= j < k ==> !eligible(#[trigger] self.records()[j], now),
                },
            decreases self.records().len() - k,
        {
            let rec = &self.tasks[k];
            if rec.state == TaskState::Pending && rec.ready_at <= now {
                match best {
                    None => {
                        best = Some(k);
                    },
                    Some(b) => {
                        let cur = &self.tasks[b];
                        proof {
                            assert(self.records()[k as int].id != self.records()[b as int].id);
                        }
                        if rec.created_at < cur.created_at || (rec.created_at == cur.created_at
                            && rec.id < cur.id) {
                            best = Some(k);
                        }
                    },
                }
            }
            k = k + 1;
        }
        best
    }
}

} // verus!
