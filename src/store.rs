//! The task store: the authoritative collection of task records, in creation
//! order, and the single place where a record's state changes.
use vstd::prelude::*;

use crate::task::{transition_target, TaskEvent, TaskRecord, TaskState};

verus! {

/// Errors of the scheduler's commands.
#[derive(Clone, Copy, Debug, PartialEq, Eq, Structural)]
pub enum SchedulerError {
    /// No task has the given identifier.
    NotFound,
    /// The command does not apply to the task's current state.
    InvalidStateTransition,
    /// A record with the same identifier is already stored.
    DuplicateId,
    /// The payload's total size does not fit in 64 bits.
    PayloadTooLarge,
    /// Every task identifier has been handed out.
    IdsExhausted,
    /// The owning account is not signed in.
    NotAuthenticated,
    /// The owning account has no template of the given name.
    TemplateNotFound,
}

/// Task states from which nothing further happens on its own.
pub open spec fn is_terminal(s: TaskState) -> bool {
    s == TaskState::Succeeded || s == TaskState::Cancelled || s == TaskState::Failed
}

/// `r` moved to state `s`; a state change withdraws any pending signal and
/// ends the current worker's claim.
pub open spec fn moved(r: TaskRecord, s: TaskState) -> TaskRecord {
    TaskRecord { state: s, pause_requested: false, cancel_requested: false, claimed: false, ..r }
}

/// What a caller sees of one task.
pub struct TaskSummary {
    pub id: u64,
    pub owner: u64,
    pub state: TaskState,
    /// Bytes acknowledged so far.
    pub progress: u64,
    /// Bytes of the whole payload.
    pub total: u64,
    /// The last failure, or empty.
    pub message: String,
}

/// The summary that describes record `r`.
pub open spec fn summarizes(s: TaskSummary, r: TaskRecord) -> bool {
    &&& s.id == r.id
    &&& s.owner == r.owner
    &&& s.state == r.state
    &&& s.progress == r.progress()
    &&& s.total == r.total()
    &&& s.message@ == match r.last_error {
        Some(e) => e@,
        None => Seq::<char>::empty(),
    }
}

/// The records of all tasks, in creation order.
pub struct TaskStore {
    pub(crate) tasks: Vec<TaskRecord>,
}

impl TaskStore {
    /// The stored records, in creation order.
    pub open(crate) spec fn records(&self) -> Seq<TaskRecord> {
        self.tasks@
    }

    /// Some stored record has identifier `id`.
    pub open spec fn has_id(&self, id: u64) -> bool {
        exists|i: int| 0 <= i < self.records().len() && #[trigger] self.records()[i].id == id
    }

    /// Every record is well formed and no two share an identifier.
    pub open spec fn wf(&self) -> bool {
        &&& forall|i: int| 0 <= i < self.records().len() ==> #[trigger] self.records()[i].wf()
        &&& forall|i: int, j: int|
            0 <= i < self.records().len() && 0 <= j < self.records().len() && i != j
                ==> #[trigger] self.records()[i].id != #[trigger] self.records()[j].id
    }

    /// Identifiers are unique: the record at `i` is the only one with its id.
    pub proof fn lemma_unique(&self, i: int)
        requires
            self.wf(),
            0 <= i < self.records().len(),
        ensures
            forall|j: int|
                0 <= j < self.records().len() && self.records()[j].id == self.records()[i].id
                    ==> j == i,
    {
        assert forall|j: int|
            0 <= j < self.records().len() && self.records()[j].id == self.records()[i].id implies j
            == i by {
            if j != i {
                assert(self.records()[j].id != self.records()[i].id);
            }
        }
    }

    /// An empty store.
    pub fn new() -> (r: TaskStore)
        ensures
            r.wf(),
            r.records() == Seq::<TaskRecord>::empty(),
    {
        TaskStore { tasks: Vec::new() }
    }

    /// Number of stored records.
    pub fn len(&self) -> (r: usize)
        ensures
            r == self.records().len(),
    {
        self.tasks.len()
    }

    /// The record at position `i` in creation order.
    pub fn at(&self, i: usize) -> (r: &TaskRecord)
        requires
            i < self.records().len(),
        ensures
            *r == self.records()[i as int],
    {
        &self.tasks[i]
    }

    /// Position of the record with identifier `id`.
    pub fn find(&self, id: u64) -> (r: Option<usize>)
        ensures
            match r {
                Some(i) => i < self.records().len() && self.records()[i as int].id == id,
                None => !self.has_id(id),
            },
    {
        let mut k: usize = 0;
        while k < self.tasks.len()
            invariant
                0 <= k <= self.records().len(),
                forall|j: int| 0 <= j < k ==> self.records()[j].id != id,
            decreases self.records().len() - k,
        {
            if self.tasks[k].id == id {
                return Some(k);
            }
            k = k + 1;
        }
        None
    }

    /// The record with identifier `id`, or `NotFound`.
    pub fn get(&self, id: u64) -> (r: Result<&TaskRecord, SchedulerError>)
        ensures
            match r {
                Ok(rec) => rec.id == id && exists|i: int|
                    0 <= i < self.records().len() && self.records()[i] == *rec,
                Err(e) => e == SchedulerError::NotFound && !self.has_id(id),
            },
    {
        match self.find(id) {
            Some(i) => Ok(&self.tasks[i]),
            None => Err(SchedulerError::NotFound),
        }
    }

    /// Adds a new pending record at the end, or fails with `DuplicateId` and
    /// leaves the store as it was.
    pub fn insert(&mut self, record: TaskRecord) -> (r: Result<(), SchedulerError>)
        requires
            old(self).wf(),
            record.wf(),
            record.state == TaskState::Pending,
        ensures
            final(self).wf(),
            match r {
                Ok(()) => !old(self).has_id(record.id) && final(self).records() == old(self).records().push(record),
                Err(e) => e == SchedulerError::DuplicateId && old(self).has_id(record.id)
                    && final(self).records() == old(self).records(),
            },
    {
        match self.find(record.id) {
            Some(_) => Err(SchedulerError::DuplicateId),
            None => {
                self.tasks.push(record);
                Ok(())
            },
        }
    }

    /// Applies event `ev` to the record at position `i`: where the transition
    /// table has a row for its state and `ev`, the record moves to the row's
    /// state; otherwise it fails with `InvalidStateTransition` and changes
    /// nothing.
    pub fn transition_at(&mut self, i: usize, ev: TaskEvent) -> (r: Result<TaskState, SchedulerError>)
        requires
            old(self).wf(),
            i < old(self).records().len(),
        ensures
            final(self).wf(),
            match transition_target(old(self).records()[i as int].state, ev) {
                Some(s) => r == Ok::<TaskState, SchedulerError>(s) && final(self).records()
                    == old(self).records().update(i as int, moved(old(self).records()[i as int], s)),
                None => r == Err::<TaskState, SchedulerError>(
                    SchedulerError::InvalidStateTransition,
                ) && final(self).records() == old(self).records(),
            },
    {
        match crate::task::next_state(self.tasks[i].state, ev) {
            Some(s) => {
                self.tasks[i].state = s;
                self.tasks[i].pause_requested = false;
                self.tasks[i].cancel_requested = false;
                self.tasks[i].claimed = false;
                proof {
                    assert(self.records()[i as int] == moved(old(self).records()[i as int], s));
                    assert(self.records() =~= old(self).records().update(
                        i as int,
                        moved(old(self).records()[i as int], s),
                    ));
                    assert forall|a: int| 0 <= a < self.records().len() implies #[trigger] self.records()[a].wf()
                        && self.records()[a].id == old(self).records()[a].id by {
                        assert(old(self).records()[a].wf());
                        if a != i {
                            assert(self.records()[a] == old(self).records()[a]);
                        }
                    }
                }
                Ok(s)
            },
            None => Err(SchedulerError::InvalidStateTransition),
        }
    }

    /// Applies event `ev` to the record with identifier `id`, as
    /// `transition_at` does, or fails with `NotFound`.
    pub fn transition(&mut self, id: u64, ev: TaskEvent) -> (r: Result<TaskState, SchedulerError>)
        requires
            old(self).wf(),
        ensures
            final(self).wf(),
            !old(self).has_id(id) ==> r == Err::<TaskState, SchedulerError>(
                SchedulerError::NotFound,
            ) && final(self).records() == old(self).records(),
            forall|i: int|
                0 <= i < old(self).records().len() && old(self).records()[i].id == id ==> match transition_target(
                    old(self).records()[i].state,
                    ev,
                ) {
                    Some(s) => r == Ok::<TaskState, SchedulerError>(s) && final(self).records()
                        == old(self).records().update(i, moved(old(self).records()[i], s)),
                    None => r == Err::<TaskState, SchedulerError>(
                        SchedulerError::InvalidStateTransition,
                    ) && final(self).records() == old(self).records(),
                },
    {
        match self.find(id) {
            Some(i) => {
                proof {
                    assert forall|j: int|
                        0 <= j < old(self).records().len() && old(self).records()[j].id
                            == id implies j == i by {
                        if j != i {
                            assert(old(self).records()[j].id != old(self).records()[i as int].id);
                        }
                    }
                }
                self.transition_at(i, ev)
            },
            None => Err(SchedulerError::NotFound),
        }
    }

    /// Deletes the record with identifier `id` where its state is terminal;
    /// fails with `NotFound`, or with `InvalidStateTransition` for a task that
    /// may still change, and then changes nothing.
    pub fn remove(&mut self, id: u64) -> (r: Result<TaskRecord, SchedulerError>)
        requires
            old(self).wf(),
        ensures
            final(self).wf(),
            !old(self).has_id(id) ==> r == Err::<TaskRecord, SchedulerError>(
                SchedulerError::NotFound,
            ) && final(self).records() == old(self).records(),
            forall|i: int|
                0 <= i < old(self).records().len() && old(self).records()[i].id == id ==> if is_terminal(
                    old(self).records()[i].state,
                ) {
                    r == Ok::<TaskRecord, SchedulerError>(old(self).records()[i]) && final(self).records() == old(self).records().remove(i)
                } else {
                    r == Err::<TaskRecord, SchedulerError>(SchedulerError::InvalidStateTransition)
                        && final(self).records() == old(self).records()
                },
    {
        match self.find(id) {
            Some(i) => {
                proof {
                    assert forall|j: int|
                        0 <= j < old(self).records().len() && old(self).records()[j].id
                            == id implies j == i by {
                        if j != i {
                            assert(old(self).records()[j].id != old(self).records()[i as int].id);
                        }
                    }
                }
                let s = self.tasks[i].state;
                if s == TaskState::Succeeded || s == TaskState::Cancelled || s
                    == TaskState::Failed {
                    let rec = self.tasks.remove(i);
                    proof {
                        let o = old(self).records();
                        assert forall|a: int, b: int|
                            0 <= a < self.records().len() && 0 <= b < self.records().len() && a
                                != b implies #[trigger] self.records()[a].id != #[trigger] self.records()[b].id by {
                            let a2 = if a < i { a } else { a + 1 };
                            let b2 = if b < i { b } else { b + 1 };
                            assert(self.records()[a] == o[a2]);
                            assert(self.records()[b] == o[b2]);
                        }
                        assert forall|a: int| 0 <= a < self.records().len() implies #[trigger] self.records()[a].wf() by {
                            let a2 = if a < i { a } else { a + 1 };
                            assert(self.records()[a] == o[a2]);
                        }
                    }
                    Ok(rec)
                } else {
                    Err(SchedulerError::InvalidStateTransition)
                }
            },
            None => Err(SchedulerError::NotFound),
        }
    }

    /// A summary of every record, in creation order.
    pub fn list(&self) -> (r: Vec<TaskSummary>)
        requires
            self.wf(),
        ensures
            r@.len() == self.records().len(),
            forall|i: int| 0 <= i < r@.len() ==> summarizes(#[trigger] r@[i], self.records()[i]),
    {
        let mut out: Vec<TaskSummary> = Vec::new();
        let mut k: usize = 0;
        while k < self.tasks.len()
            invariant
                self.wf(),
                0 <= k <= self.records().len(),
                out@.len() == k,
                forall|i: int| 0 <= i < k ==> summarizes(#[trigger] out@[i], self.records()[i]),
            decreases self.records().len() - k,
        {
            let rec = &self.tasks[k];
            proof {
                assert(rec.wf());
            }
            let message = match &rec.last_error {
                Some(e) => e.clone(),
                None => String::new(),
            };
            out.push(
                TaskSummary {
                    id: rec.id,
                    owner: rec.owner,
                    state: rec.state,
                    progress: rec.bytes_done(),
                    total: rec.total_bytes(),
                    message,
                },
            );
            k = k + 1;
        }
        out
    }
}

} // verus!
