use biliup_app::store::{SchedulerError, TaskStore};
use biliup_app::task::{FilePart, TaskEvent, TaskRecord, TaskState};

fn record(id: u64) -> TaskRecord {
    let parts = vec![FilePart { path: "/v/a.mp4".to_string(), title: "a".to_string(), size: 10 }];
    TaskRecord::new(id, 1, "t".to_string(), parts, 0).unwrap()
}

#[test]
fn store_rejects_duplicate_ids() {
    let mut store = TaskStore::new();
    assert_eq!(store.insert(record(1)), Ok(()));
    assert_eq!(store.insert(record(1)), Err(SchedulerError::DuplicateId));
    assert_eq!(store.len(), 1);
    assert_eq!(store.get(1).unwrap().state, TaskState::Pending);
    assert_eq!(store.get(2).err(), Some(SchedulerError::NotFound));
}

#[test]
fn store_transitions_follow_the_table() {
    let mut store = TaskStore::new();
    store.insert(record(1)).unwrap();
    assert_eq!(store.transition(1, TaskEvent::Pause), Err(SchedulerError::InvalidStateTransition));
    assert_eq!(store.get(1).unwrap().state, TaskState::Pending);
    assert_eq!(store.transition(1, TaskEvent::Admit), Ok(TaskState::Uploading));
    assert_eq!(store.transition(1, TaskEvent::Fail), Ok(TaskState::Failed));
    assert_eq!(store.transition(1, TaskEvent::Admit), Err(SchedulerError::InvalidStateTransition));
    assert_eq!(store.transition(1, TaskEvent::Retry), Ok(TaskState::Pending));
    assert_eq!(store.remove(1).err(), Some(SchedulerError::InvalidStateTransition));
    assert_eq!(store.transition(1, TaskEvent::Cancel), Ok(TaskState::Cancelled));
    assert_eq!(store.transition(9, TaskEvent::Cancel), Err(SchedulerError::NotFound));
    assert_eq!(store.list().len(), 1);
    assert_eq!(store.remove(1).unwrap().id, 1);
    assert_eq!(store.len(), 0);
}
