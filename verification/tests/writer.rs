use jetfeed::content::{FeedContent, MatchOperation};
use jetfeed::writer::{
    FlushReason, WriteCommand, WriterAction, WriterInput, WriterStage, WriterTask,
    FLUSH_INTERVAL_SECS, WRITE_BATCH_MAX_SIZE, WRITE_CHANNEL_CAPACITY,
};

fn entry(n: i64) -> FeedContent {
    FeedContent {
        feed_id: "feed".to_string(),
        uri: format!("at://did:plc:a/app.bsky.feed.post/{}", n),
        indexed_at: n,
        score: 1,
    }
}

fn content(n: i64) -> WriterInput {
    WriterInput::Command(WriteCommand::Content(entry(n), MatchOperation::Upsert))
}

#[test]
fn limits_of_the_writer() {
    assert_eq!(WRITE_BATCH_MAX_SIZE, 1000);
    assert_eq!(WRITE_CHANNEL_CAPACITY, 50_000);
    assert_eq!(FLUSH_INTERVAL_SECS, 1);
}

#[test]
fn new_writer_is_empty() {
    let task = WriterTask::new("jetstream".to_string());
    assert_eq!(task.source(), "jetstream");
    assert!(task.batch().is_empty());
    assert_eq!(task.stage(), WriterStage::Receiving);
}

#[test]
fn full_buffer_is_flushed() {
    let mut task = WriterTask::new("s".to_string());
    for n in 0..999 {
        assert_eq!(task.step(content(n)), WriterAction::Receive);
    }
    assert_eq!(task.step(content(999)), WriterAction::WriteBatch);
    assert_eq!(task.stage(), WriterStage::Flushing(FlushReason::Full));
    assert_eq!(task.batch().len(), 1000);
    assert_eq!(task.batch()[999], (entry(999), MatchOperation::Upsert));
    assert_eq!(task.step(WriterInput::BatchWritten(true)), WriterAction::Receive);
    assert!(task.batch().is_empty());
}

#[test]
fn checkpoint_flushes_before_the_cursor() {
    let mut task = WriterTask::new("s".to_string());
    assert_eq!(task.step(content(1)), WriterAction::Receive);
    assert_eq!(task.step(content(2)), WriterAction::Receive);
    assert_eq!(
        task.step(WriterInput::Command(WriteCommand::Checkpoint(77))),
        WriterAction::WriteBatch
    );
    assert_eq!(
        *task.batch(),
        vec![(entry(1), MatchOperation::Upsert), (entry(2), MatchOperation::Upsert)]
    );
    assert_eq!(task.step(WriterInput::BatchWritten(true)), WriterAction::PersistCursor(77));
    assert!(task.batch().is_empty());
    assert_eq!(task.step(WriterInput::CursorPersisted(true)), WriterAction::Receive);
    assert_eq!(task.stage(), WriterStage::Receiving);
}

#[test]
fn empty_checkpoint_still_writes_a_batch() {
    let mut task = WriterTask::new("s".to_string());
    assert_eq!(
        task.step(WriterInput::Command(WriteCommand::Checkpoint(0))),
        WriterAction::WriteBatch
    );
    assert!(task.batch().is_empty());
    assert_eq!(task.step(WriterInput::BatchWritten(true)), WriterAction::PersistCursor(0));
}

#[test]
fn failed_flush_keeps_the_cursor_back() {
    let mut task = WriterTask::new("s".to_string());
    task.step(content(1));
    task.step(WriterInput::Command(WriteCommand::Checkpoint(9)));
    assert_eq!(task.step(WriterInput::BatchWritten(false)), WriterAction::Fail);
    assert_eq!(task.stage(), WriterStage::Failed);
}

#[test]
fn failed_cursor_ends_the_task() {
    let mut task = WriterTask::new("s".to_string());
    task.step(WriterInput::Command(WriteCommand::Checkpoint(9)));
    task.step(WriterInput::BatchWritten(true));
    assert_eq!(task.step(WriterInput::CursorPersisted(false)), WriterAction::Fail);
    assert_eq!(task.stage(), WriterStage::Failed);
}

#[test]
fn interval_flush_rearms() {
    let mut task = WriterTask::new("s".to_string());
    task.step(content(1));
    assert_eq!(task.step(WriterInput::FlushDue), WriterAction::WriteBatch);
    assert_eq!(task.batch().len(), 1);
    assert_eq!(task.step(WriterInput::BatchWritten(true)), WriterAction::RearmAndReceive);
    assert!(task.batch().is_empty());
}

#[test]
fn closing_flushes_the_rest() {
    let mut task = WriterTask::new("s".to_string());
    task.step(content(1));
    assert_eq!(task.step(WriterInput::ChannelClosed), WriterAction::WriteBatch);
    assert_eq!(task.batch().len(), 1);
    assert_eq!(task.step(WriterInput::BatchWritten(true)), WriterAction::Finish);
    assert_eq!(task.stage(), WriterStage::Finished);
    assert!(task.batch().is_empty());
}

#[test]
fn timing_only_splits_batches() {
    let mut written = Vec::new();
    for ticks in [false, true] {
        let mut task = WriterTask::new("s".to_string());
        let mut uris = Vec::new();
        for n in 0..3 {
            task.step(content(n));
            if ticks {
                task.step(WriterInput::FlushDue);
                uris.extend(task.batch().iter().map(|write| write.0.uri.clone()));
                task.step(WriterInput::BatchWritten(true));
            }
        }
        task.step(WriterInput::ChannelClosed);
        uris.extend(task.batch().iter().map(|write| write.0.uri.clone()));
        task.step(WriterInput::BatchWritten(true));
        written.push(uris);
    }
    assert_eq!(written[0].len(), 3);
    assert_eq!(written[0], written[1]);
}

#[test]
fn same_entries_are_written_at_each_cursor() {
    let mut runs = Vec::new();
    for ticks in [false, true] {
        let mut task = WriterTask::new("s".to_string());
        let mut uris = Vec::new();
        let mut at_cursor = Vec::new();
        for n in 0..5 {
            task.step(content(n));
            if ticks {
                task.step(WriterInput::FlushDue);
                uris.extend(task.batch().iter().map(|write| write.0.uri.clone()));
                task.step(WriterInput::BatchWritten(true));
            }
            if n == 1 || n == 3 {
                task.step(WriterInput::Command(WriteCommand::Checkpoint(n)));
                uris.extend(task.batch().iter().map(|write| write.0.uri.clone()));
                assert_eq!(
                    task.step(WriterInput::BatchWritten(true)),
                    WriterAction::PersistCursor(n)
                );
                at_cursor.push((n, uris.clone()));
                task.step(WriterInput::CursorPersisted(true));
            }
        }
        runs.push(at_cursor);
    }
    let uris = |count: i64| (0..count).map(|n| entry(n).uri).collect::<Vec<String>>();
    assert_eq!(runs[0], vec![(1, uris(2)), (3, uris(4))]);
    assert_eq!(runs[0], runs[1]);
}
