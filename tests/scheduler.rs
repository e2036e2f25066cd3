use biliup_app::store::SchedulerError;
use biliup_app::task::{next_state, FilePart, TaskEvent, TaskState};
use biliup_app::upload_service::{backoff_delay, ChunkOutcome, UploadService, WorkerStep};

fn part(name: &str, size: u64) -> FilePart {
    FilePart { path: format!("/videos/{}", name), title: name.to_string(), size }
}

fn state_of(s: &UploadService, id: u64) -> TaskState {
    s.task(id).unwrap().state
}

/// Drives one task's worker until it stops, acknowledging every chunk in full.
fn run_to_end(s: &mut UploadService, id: u64, now: u64) -> (TaskState, Vec<u64>) {
    let mut seen = Vec::new();
    loop {
        match s.next_step(id, now).unwrap() {
            WorkerStep::Send { part, offset, len } => {
                s.report_chunk(id, part, ChunkOutcome::Ack(offset + len), now).unwrap();
                seen.push(s.task(id).unwrap().bytes_done());
            }
            WorkerStep::Stop(state) => return (state, seen),
        }
    }
}

#[test]
fn two_part_task_runs_to_success() {
    let mut s = UploadService::with_settings(1, 3, 50);
    let id = s.create_task(7, "default".to_string(), vec![part("a", 100), part("b", 50)], 10).unwrap();
    assert_eq!(state_of(&s, id), TaskState::Uploading);
    assert_eq!(s.task(id).unwrap().bytes_done(), 0);
    assert_eq!(s.task(id).unwrap().total_bytes(), 150);
    assert_eq!(s.claim_admitted(), Some(id));
    assert_eq!(s.claim_admitted(), None);
    let (end, seen) = run_to_end(&mut s, id, 20);
    assert_eq!(end, TaskState::Succeeded);
    assert_eq!(seen, vec![50, 100, 150]);
    assert_eq!(state_of(&s, id), TaskState::Succeeded);
    assert_eq!(s.task(id).unwrap().finished_at, Some(20));
}

#[test]
fn second_task_waits_for_the_first() {
    let mut s = UploadService::with_settings(1, 3, 100);
    let t1 = s.create_task(1, "t".to_string(), vec![part("a", 100)], 1).unwrap();
    let t2 = s.create_task(1, "t".to_string(), vec![part("b", 100)], 2).unwrap();
    assert_eq!(state_of(&s, t1), TaskState::Uploading);
    assert_eq!(state_of(&s, t2), TaskState::Pending);
    match s.next_step(t1, 3).unwrap() {
        WorkerStep::Send { part, offset, len } => {
            assert_eq!((part, offset, len), (0, 0, 100));
            s.report_chunk(t1, part, ChunkOutcome::Ack(100), 3).unwrap();
        }
        other => panic!("unexpected {:?}", other),
    }
    assert_eq!(state_of(&s, t2), TaskState::Pending);
    assert_eq!(s.next_step(t1, 4).unwrap(), WorkerStep::Stop(TaskState::Succeeded));
    assert_eq!(state_of(&s, t2), TaskState::Uploading);
}

#[test]
fn pause_keeps_checkpoint_and_start_resumes_there() {
    let mut s = UploadService::with_settings(1, 3, 30);
    let id = s.create_task(1, "t".to_string(), vec![part("a", 100), part("b", 50)], 0).unwrap();
    for expected in [30u64, 60] {
        match s.next_step(id, 1).unwrap() {
            WorkerStep::Send { part, offset, len } => {
                s.report_chunk(id, part, ChunkOutcome::Ack(offset + len), 1).unwrap();
                assert_eq!(s.task(id).unwrap().bytes_done(), expected);
            }
            other => panic!("unexpected {:?}", other),
        }
    }
    assert_eq!(s.pause_upload(id), Ok(true));
    assert_eq!(state_of(&s, id), TaskState::Uploading);
    assert_eq!(s.next_step(id, 2).unwrap(), WorkerStep::Stop(TaskState::Paused));
    assert_eq!(state_of(&s, id), TaskState::Paused);
    assert_eq!(s.task(id).unwrap().checkpoints, vec![60, 0]);
    assert_eq!(s.task(id).unwrap().bytes_done(), 60);
    assert_eq!(s.start_upload(id, 3), Ok(true));
    assert_eq!(state_of(&s, id), TaskState::Uploading);
    assert_eq!(s.next_step(id, 4).unwrap(), WorkerStep::Send { part: 0, offset: 60, len: 30 });
}

#[test]
fn raising_the_limit_admits_waiting_task() {
    let mut s = UploadService::with_settings(1, 3, 10);
    let t1 = s.create_task(1, "t".to_string(), vec![part("a", 10)], 1).unwrap();
    let t2 = s.create_task(1, "t".to_string(), vec![part("b", 10)], 2).unwrap();
    assert_eq!(state_of(&s, t2), TaskState::Pending);
    s.set_max_concurrent(2, 3);
    assert_eq!(s.max_concurrent(), 2);
    assert_eq!(state_of(&s, t1), TaskState::Uploading);
    assert_eq!(state_of(&s, t2), TaskState::Uploading);
}

#[test]
fn lowering_the_limit_preempts_nothing() {
    let mut s = UploadService::with_settings(2, 3, 10);
    let t1 = s.create_task(1, "t".to_string(), vec![part("a", 10)], 1).unwrap();
    let t2 = s.create_task(1, "t".to_string(), vec![part("b", 10)], 2).unwrap();
    let t3 = s.create_task(1, "t".to_string(), vec![part("c", 10)], 3).unwrap();
    s.set_max_concurrent(1, 4);
    assert_eq!(state_of(&s, t1), TaskState::Uploading);
    assert_eq!(state_of(&s, t2), TaskState::Uploading);
    assert_eq!(state_of(&s, t3), TaskState::Pending);
    assert_eq!(s.cancel_upload(t1, 5), Ok(true));
    assert_eq!(s.next_step(t1, 5).unwrap(), WorkerStep::Stop(TaskState::Cancelled));
    assert_eq!(state_of(&s, t3), TaskState::Pending);
    assert_eq!(s.cancel_upload(t2, 6), Ok(true));
    assert_eq!(s.next_step(t2, 6).unwrap(), WorkerStep::Stop(TaskState::Cancelled));
    assert_eq!(state_of(&s, t3), TaskState::Uploading);
}

#[test]
fn oldest_waiting_task_is_admitted_first() {
    let mut s = UploadService::with_settings(1, 3, 10);
    let running = s.create_task(1, "t".to_string(), vec![part("r", 10)], 1).unwrap();
    let a = s.create_task(1, "t".to_string(), vec![part("a", 10)], 2).unwrap();
    let b = s.create_task(1, "t".to_string(), vec![part("b", 10)], 3).unwrap();
    s.report_chunk(running, 0, ChunkOutcome::Ack(10), 4).unwrap();
    assert_eq!(s.next_step(running, 4).unwrap(), WorkerStep::Stop(TaskState::Succeeded));
    assert_eq!(state_of(&s, a), TaskState::Uploading);
    assert_eq!(state_of(&s, b), TaskState::Pending);
}

#[test]
fn cancel_is_idempotent() {
    let mut s = UploadService::with_settings(1, 3, 10);
    let _t1 = s.create_task(1, "t".to_string(), vec![part("a", 10)], 1).unwrap();
    let t2 = s.create_task(1, "t".to_string(), vec![part("b", 10)], 2).unwrap();
    assert_eq!(s.cancel_upload(t2, 3), Ok(true));
    assert_eq!(state_of(&s, t2), TaskState::Cancelled);
    assert_eq!(s.task(t2).unwrap().finished_at, Some(3));
    assert_eq!(s.cancel_upload(t2, 4), Ok(true));
    assert_eq!(state_of(&s, t2), TaskState::Cancelled);
    assert_eq!(s.task(t2).unwrap().finished_at, Some(3));
    assert_eq!(s.cancel_upload(99, 4), Err(SchedulerError::NotFound));
}

#[test]
fn cancel_of_finished_task_is_refused() {
    let mut s = UploadService::with_settings(1, 3, 10);
    let id = s.create_task(1, "t".to_string(), vec![], 1).unwrap();
    assert_eq!(s.next_step(id, 2).unwrap(), WorkerStep::Stop(TaskState::Succeeded));
    assert_eq!(s.cancel_upload(id, 3), Err(SchedulerError::InvalidStateTransition));
    assert_eq!(state_of(&s, id), TaskState::Succeeded);
    let failed = s.create_task(1, "t".to_string(), vec![part("f", 10)], 4).unwrap();
    s.report_chunk(failed, 0, ChunkOutcome::Fatal("quota".to_string()), 5).unwrap();
    assert_eq!(s.cancel_upload(failed, 6), Err(SchedulerError::InvalidStateTransition));
    assert_eq!(state_of(&s, failed), TaskState::Failed);
}

#[test]
fn cancel_while_uploading_discards_checkpoints() {
    let mut s = UploadService::with_settings(1, 3, 10);
    let id = s.create_task(1, "t".to_string(), vec![part("a", 30)], 1).unwrap();
    s.report_chunk(id, 0, ChunkOutcome::Ack(10), 2).unwrap();
    assert_eq!(s.cancel_upload(id, 3), Ok(true));
    assert_eq!(state_of(&s, id), TaskState::Uploading);
    assert_eq!(s.next_step(id, 4).unwrap(), WorkerStep::Stop(TaskState::Cancelled));
    assert_eq!(s.task(id).unwrap().checkpoints, vec![0]);
    assert_eq!(s.start_upload(id, 5), Err(SchedulerError::InvalidStateTransition));
    assert_eq!(s.retry_upload(id, 5), Err(SchedulerError::InvalidStateTransition));
}

#[test]
fn transient_failures_are_bounded() {
    let mut s = UploadService::with_settings(1, 3, 10);
    let id = s.create_task(1, "t".to_string(), vec![part("a", 10)], 0).unwrap();
    s.report_chunk(id, 0, ChunkOutcome::Transient("timeout".to_string()), 100).unwrap();
    let r = s.task(id).unwrap();
    assert_eq!(r.state, TaskState::Pending);
    assert_eq!(r.attempt_count, 1);
    assert_eq!(r.ready_at, 100 + 1000);
    assert_eq!(r.last_error.as_deref(), Some("timeout"));
    s.dispatch(1099);
    assert_eq!(state_of(&s, id), TaskState::Pending);
    s.dispatch(1100);
    assert_eq!(state_of(&s, id), TaskState::Uploading);
    assert_eq!(s.task(id).unwrap().last_error, None);
    s.report_chunk(id, 0, ChunkOutcome::Transient("timeout".to_string()), 2000).unwrap();
    assert_eq!(s.task(id).unwrap().ready_at, 2000 + 2000);
    s.dispatch(4000);
    s.report_chunk(id, 0, ChunkOutcome::Transient("reset".to_string()), 5000).unwrap();
    let r = s.task(id).unwrap();
    assert_eq!(r.state, TaskState::Failed);
    assert_eq!(r.attempt_count, 3);
    assert_eq!(r.last_error.as_deref(), Some("reset"));
    s.dispatch(u64::MAX);
    assert_eq!(state_of(&s, id), TaskState::Failed);
}

#[test]
fn fatal_failure_fails_at_once_and_retry_requeues() {
    let mut s = UploadService::with_settings(1, 3, 10);
    let id = s.create_task(1, "t".to_string(), vec![part("a", 20)], 0).unwrap();
    s.report_chunk(id, 0, ChunkOutcome::Ack(10), 1).unwrap();
    s.report_chunk(id, 0, ChunkOutcome::Fatal("quota exceeded".to_string()), 2).unwrap();
    let r = s.task(id).unwrap();
    assert_eq!(r.state, TaskState::Failed);
    assert_eq!(r.attempt_count, 0);
    assert_eq!(r.checkpoints, vec![10]);
    assert_eq!(s.retry_upload(id, 3), Ok(true));
    let r = s.task(id).unwrap();
    assert_eq!(r.state, TaskState::Uploading);
    assert_eq!(r.last_error, None);
    assert_eq!(s.next_step(id, 4).unwrap(), WorkerStep::Send { part: 0, offset: 10, len: 10 });
}

#[test]
fn retry_keeps_the_attempt_count() {
    let mut s = UploadService::with_settings(1, 2, 10);
    let id = s.create_task(1, "t".to_string(), vec![part("a", 10)], 0).unwrap();
    s.report_chunk(id, 0, ChunkOutcome::Transient("x".to_string()), 0).unwrap();
    s.dispatch(1000);
    s.report_chunk(id, 0, ChunkOutcome::Transient("y".to_string()), 1000).unwrap();
    assert_eq!(state_of(&s, id), TaskState::Failed);
    assert_eq!(s.retry_upload(id, 2000), Ok(true));
    assert_eq!(s.task(id).unwrap().attempt_count, 2);
    s.report_chunk(id, 0, ChunkOutcome::Transient("z".to_string()), 2000).unwrap();
    assert_eq!(state_of(&s, id), TaskState::Failed);
    assert_eq!(s.task(id).unwrap().attempt_count, 2);
}

#[test]
fn commands_outside_the_table_change_nothing() {
    let mut s = UploadService::with_settings(1, 3, 10);
    let t1 = s.create_task(1, "t".to_string(), vec![part("a", 10)], 1).unwrap();
    let t2 = s.create_task(1, "t".to_string(), vec![part("b", 10)], 2).unwrap();
    assert_eq!(s.pause_upload(t2), Err(SchedulerError::InvalidStateTransition));
    assert_eq!(s.start_upload(t2, 3), Err(SchedulerError::InvalidStateTransition));
    assert_eq!(s.start_upload(t1, 3), Err(SchedulerError::InvalidStateTransition));
    assert_eq!(s.retry_upload(t1, 3), Err(SchedulerError::InvalidStateTransition));
    assert_eq!(s.next_step(t2, 3), Err(SchedulerError::InvalidStateTransition));
    assert_eq!(s.report_chunk(t2, 0, ChunkOutcome::Ack(5), 3), Err(SchedulerError::InvalidStateTransition));
    assert_eq!(s.pause_upload(42), Err(SchedulerError::NotFound));
    assert_eq!(s.remove_task(t1).err(), Some(SchedulerError::InvalidStateTransition));
    assert_eq!(state_of(&s, t1), TaskState::Uploading);
    assert_eq!(state_of(&s, t2), TaskState::Pending);
    assert_eq!(s.task(t2).unwrap().checkpoints, vec![0]);
}

#[test]
fn acknowledgements_only_move_forward() {
    let mut s = UploadService::with_settings(1, 3, 10);
    let id = s.create_task(1, "t".to_string(), vec![part("a", 30)], 1).unwrap();
    s.report_chunk(id, 0, ChunkOutcome::Ack(20), 2).unwrap();
    s.report_chunk(id, 0, ChunkOutcome::Ack(10), 2).unwrap();
    s.report_chunk(id, 0, ChunkOutcome::Ack(31), 2).unwrap();
    s.report_chunk(id, 5, ChunkOutcome::Ack(25), 2).unwrap();
    assert_eq!(s.task(id).unwrap().checkpoints, vec![20]);
}

#[test]
fn queue_lists_tasks_in_creation_order() {
    let mut s = UploadService::with_settings(1, 3, 10);
    let t1 = s.create_task(3, "t".to_string(), vec![part("a", 40)], 5).unwrap();
    let t2 = s.create_task(4, "t".to_string(), vec![part("b", 10), part("c", 15)], 6).unwrap();
    s.report_chunk(t1, 0, ChunkOutcome::Ack(10), 7).unwrap();
    let q = s.get_upload_queue();
    assert_eq!(q.len(), 2);
    assert_eq!((q[0].id, q[0].owner, q[0].state, q[0].progress, q[0].total), (t1, 3, TaskState::Uploading, 10, 40));
    assert_eq!((q[1].id, q[1].owner, q[1].state, q[1].progress, q[1].total), (t2, 4, TaskState::Pending, 0, 25));
    assert_eq!(q[0].message, "");
}

#[test]
fn finished_tasks_can_be_removed_and_ids_are_not_reused() {
    let mut s = UploadService::with_settings(1, 3, 10);
    let t1 = s.create_task(1, "t".to_string(), vec![part("a", 10)], 1).unwrap();
    assert_eq!(s.cancel_upload(t1, 2), Ok(true));
    assert_eq!(s.next_step(t1, 2).unwrap(), WorkerStep::Stop(TaskState::Cancelled));
    assert_eq!(s.remove_task(t1).unwrap().id, t1);
    assert_eq!(s.task(t1).err(), Some(SchedulerError::NotFound));
    let t2 = s.create_task(1, "t".to_string(), vec![part("b", 10)], 3).unwrap();
    assert_ne!(t1, t2);
}

#[test]
fn oversized_payload_is_refused() {
    let mut s = UploadService::new(1);
    let r = s.create_task(1, "t".to_string(), vec![part("a", u64::MAX), part("b", 1)], 1);
    assert_eq!(r, Err(SchedulerError::PayloadTooLarge));
    assert!(s.get_upload_queue().is_empty());
}

#[test]
fn backoff_doubles_up_to_the_cap() {
    assert_eq!(backoff_delay(0), 1000);
    assert_eq!(backoff_delay(1), 1000);
    assert_eq!(backoff_delay(2), 2000);
    assert_eq!(backoff_delay(3), 4000);
    assert_eq!(backoff_delay(6), 32000);
    assert_eq!(backoff_delay(7), 60000);
    assert_eq!(backoff_delay(40), 60000);
}

#[test]
fn transition_table_rows() {
    assert_eq!(next_state(TaskState::Pending, TaskEvent::Admit), Some(TaskState::Uploading));
    assert_eq!(next_state(TaskState::Paused, TaskEvent::Start), Some(TaskState::Pending));
    assert_eq!(next_state(TaskState::Failed, TaskEvent::Retry), Some(TaskState::Pending));
    assert_eq!(next_state(TaskState::Failed, TaskEvent::Admit), None);
    assert_eq!(next_state(TaskState::Succeeded, TaskEvent::Cancel), None);
    assert_eq!(next_state(TaskState::Pending, TaskEvent::Pause), None);
}

#[test]
fn task_creation_checks_account_and_template() {
    let mut config = biliup_app::config::ConfigRoot::default();
    let login: biliup::client::LoginInfo = serde_json::from_str(
        r#"{"cookie_info":{"cookies":[]},"sso":[],"token_info":{"access_token":"a","expires_in":1,"mid":2,"refresh_token":"r"},"platform":null}"#,
    )
    .unwrap();
    config.new_user_config(9, "carol".to_string(), login, None);
    config.add_user_template(9, "daily", biliup_app::config::TemplateConfig::default());
    let mut s = UploadService::with_settings(1, 3, 10);
    assert_eq!(
        s.create_task_for(&config, false, 9, "daily".to_string(), vec![part("a", 10)], 1),
        Err(SchedulerError::NotAuthenticated)
    );
    assert_eq!(
        s.create_task_for(&config, true, 9, "weekly".to_string(), vec![part("a", 10)], 1),
        Err(SchedulerError::TemplateNotFound)
    );
    assert_eq!(
        s.create_task_for(&config, true, 8, "daily".to_string(), vec![part("a", 10)], 1),
        Err(SchedulerError::TemplateNotFound)
    );
    assert!(s.get_upload_queue().is_empty());
    let id = s.create_task_for(&config, true, 9, "daily".to_string(), vec![part("a", 10)], 1).unwrap();
    assert_eq!(state_of(&s, id), TaskState::Uploading);
}

#[test]
fn cancel_survives_a_failing_chunk() {
    let mut s = UploadService::with_settings(1, 3, 10);
    let t1 = s.create_task(1, "t".to_string(), vec![part("a", 30)], 1).unwrap();
    let t2 = s.create_task(1, "t".to_string(), vec![part("b", 10)], 2).unwrap();
    s.report_chunk(t1, 0, ChunkOutcome::Ack(10), 3).unwrap();
    assert_eq!(s.cancel_upload(t1, 4), Ok(true));
    s.report_chunk(t1, 0, ChunkOutcome::Transient("timeout".to_string()), 5).unwrap();
    let r = s.task(t1).unwrap();
    assert_eq!(r.state, TaskState::Cancelled);
    assert_eq!(r.checkpoints, vec![0]);
    assert_eq!(r.attempt_count, 0);
    assert_eq!(state_of(&s, t2), TaskState::Uploading);
    s.dispatch(u64::MAX);
    assert_eq!(state_of(&s, t1), TaskState::Cancelled);

    let t3 = s.create_task(1, "t".to_string(), vec![part("c", 10)], 6).unwrap();
    s.report_chunk(t2, 0, ChunkOutcome::Ack(10), 7).unwrap();
    assert_eq!(s.next_step(t2, 7).unwrap(), WorkerStep::Stop(TaskState::Succeeded));
    assert_eq!(s.cancel_upload(t3, 8), Ok(true));
    s.report_chunk(t3, 0, ChunkOutcome::Fatal("quota exceeded".to_string()), 9).unwrap();
    assert_eq!(state_of(&s, t3), TaskState::Cancelled);
}

#[test]
fn pause_survives_a_transient_failure() {
    let mut s = UploadService::with_settings(1, 3, 10);
    let id = s.create_task(1, "t".to_string(), vec![part("a", 30)], 1).unwrap();
    s.report_chunk(id, 0, ChunkOutcome::Ack(20), 2).unwrap();
    assert_eq!(s.pause_upload(id), Ok(true));
    s.report_chunk(id, 0, ChunkOutcome::Transient("timeout".to_string()), 3).unwrap();
    let r = s.task(id).unwrap();
    assert_eq!(r.state, TaskState::Paused);
    assert_eq!(r.checkpoints, vec![20]);
    assert_eq!(r.attempt_count, 0);
    assert_eq!(s.start_upload(id, 4), Ok(true));
    assert_eq!(s.next_step(id, 5).unwrap(), WorkerStep::Send { part: 0, offset: 20, len: 10 });
}
