use frameflow::dispatch::{Action, EventTask, Stage, TaskEvent, TransportError};
use frameflow::error::ExtractionError;
use frameflow::event::{cpu_pool_size, scratch_path, subtype, ProcessEvent, PREVIEW_ID_LEN};
use frameflow::extract::{FrameResult, StreamDuration};
use frameflow::sampler::Rational;

fn event() -> ProcessEvent {
    ProcessEvent { reference: "abc123".to_string(), mimetype: "video/mp4".to_string() }
}

fn result(n: usize) -> FrameResult {
    FrameResult {
        step_in_seconds: 5,
        frame_step: 150,
        duration: StreamDuration { ticks: 30, time_base: Rational { num: 1, den: 1 } },
        frames: (0..n).map(|i| vec![i as u8; 3]).collect(),
    }
}

#[test]
fn subtype_is_text_after_last_slash() {
    assert_eq!(subtype("video/mp4"), "mp4");
    assert_eq!(subtype("mp4"), "mp4");
    assert_eq!(subtype("a/b/webm"), "webm");
    assert_eq!(subtype("video/"), "");
    assert_eq!(subtype(""), "");
}

#[test]
fn scratch_path_joins_reference_and_extension() {
    assert_eq!(scratch_path(&event()), "/tmp/abc123.mp4");
}

#[test]
fn pool_keeps_one_context_for_io() {
    assert_eq!(cpu_pool_size(Some(8)), 7);
    assert_eq!(cpu_pool_size(Some(2)), 1);
    assert_eq!(cpu_pool_size(Some(1)), 1);
    assert_eq!(cpu_pool_size(Some(0)), 1);
    assert_eq!(cpu_pool_size(None), 1);
}

#[test]
fn successful_event_runs_in_order() {
    let mut task = EventTask::new();
    let mut log = Vec::new();
    let mut keys = Vec::new();
    let mut action = task.handle(TaskEvent::Parsed(event()));
    loop {
        let next = match action {
            Action::Fetch { key, path } => {
                assert_eq!(key, "abc123");
                assert_eq!(path, "/tmp/abc123.mp4");
                log.push("fetch".to_string());
                TaskEvent::Fetched(Ok(()))
            }
            Action::Extract { path } => {
                assert_eq!(path, "/tmp/abc123.mp4");
                log.push("extract".to_string());
                TaskEvent::Extracted(Ok(result(3)))
            }
            Action::Upload { index, key } => {
                assert_eq!(key.chars().count(), PREVIEW_ID_LEN);
                assert!(key.chars().all(|c| c.is_ascii_alphanumeric() || c == '_' || c == '-'));
                assert_eq!(task.preview(index), &vec![index as u8; 3]);
                log.push(format!("put {index}"));
                keys.push(key);
                TaskEvent::Uploaded(Ok(()))
            }
            Action::Publish(meta) => {
                assert_eq!(meta.reference, "abc123");
                assert_eq!(meta.step, 5);
                assert_eq!(meta.duration.ticks, 30);
                assert_eq!(meta.previews, keys);
                log.push(format!("publish {}", meta.previews.len()));
                TaskEvent::Published(Ok(()))
            }
            Action::Acknowledge => {
                log.push("ack".to_string());
                TaskEvent::Acknowledged(Ok(()))
            }
            Action::RemoveScratch { path } => {
                assert_eq!(path, "/tmp/abc123.mp4");
                log.push("remove".to_string());
                TaskEvent::Removed(Ok(()))
            }
            Action::Idle => break,
            Action::Abandon => panic!("the event was given up"),
        };
        action = task.handle(next);
    }
    assert_eq!(
        log,
        vec!["fetch", "extract", "put 0", "put 1", "put 2", "publish 3", "ack", "remove"]
    );
    assert_ne!(keys[0], keys[1]);
    assert_eq!(task.stage(), Stage::Done);
    assert_eq!(task.preview_count(), 3);
}

#[test]
fn event_without_previews_publishes_empty_list() {
    let mut task = EventTask::new();
    task.handle(TaskEvent::Parsed(event()));
    task.handle(TaskEvent::Fetched(Ok(())));
    match task.handle(TaskEvent::Extracted(Ok(result(0)))) {
        Action::Publish(meta) => assert!(meta.previews.is_empty()),
        _ => panic!("expected a publish"),
    }
    assert_eq!(task.stage(), Stage::Publishing);
}

#[test]
fn malformed_body_is_abandoned_without_ack() {
    let mut task = EventTask::new();
    assert!(matches!(task.handle(TaskEvent::Malformed), Action::Abandon));
    assert_eq!(task.stage(), Stage::Failed);
    assert!(matches!(task.handle(TaskEvent::Published(Ok(()))), Action::Idle));
    assert!(matches!(task.handle(TaskEvent::Acknowledged(Ok(()))), Action::Idle));
    assert_eq!(task.stage(), Stage::Failed);
    // Another event is handled as usual.
    let mut other = EventTask::new();
    assert!(matches!(other.handle(TaskEvent::Parsed(event())), Action::Fetch { .. }));
}

#[test]
fn failures_leave_message_unacknowledged() {
    let mut task = EventTask::new();
    task.handle(TaskEvent::Parsed(event()));
    task.handle(TaskEvent::Fetched(Ok(())));
    assert!(matches!(
        task.handle(TaskEvent::Extracted(Err(ExtractionError::Decode))),
        Action::Abandon
    ));
    assert_eq!(task.stage(), Stage::Failed);

    let mut task = EventTask::new();
    task.handle(TaskEvent::Parsed(event()));
    assert!(matches!(task.handle(TaskEvent::Fetched(Err(TransportError))), Action::Abandon));

    let mut task = EventTask::new();
    task.handle(TaskEvent::Parsed(event()));
    task.handle(TaskEvent::Fetched(Ok(())));
    task.handle(TaskEvent::Extracted(Ok(result(2))));
    assert!(matches!(task.handle(TaskEvent::Uploaded(Err(TransportError))), Action::Abandon));
    assert_eq!(task.stage(), Stage::Failed);
}

#[test]
fn out_of_order_outcome_fails_the_event() {
    let mut task = EventTask::new();
    assert!(matches!(task.handle(TaskEvent::Fetched(Ok(()))), Action::Abandon));
    assert_eq!(task.stage(), Stage::Failed);
}
