use jetfeed::connect::{ConnectError, SubscriberSourcedMessage};
use jetfeed::consumer::{
    ConsumerSession, ConsumerTask, ConsumerTaskConfig, Event, SessionAction, SessionError,
    SessionInput, Stage, CHECKPOINT_INTERVAL_SECS, DENYLIST_INTERVAL_SECS,
    HEARTBEAT_INTERVAL_SECS,
};
use jetfeed::content::{FeedContent, Match, MatchOperation};
use jetfeed::frame::{Frame, FrameContent, SkipReason};
use jetfeed::writer::{WriteCommand, WriterAction, WriterInput, WriterTask};

fn config(compression: bool) -> ConsumerTaskConfig<u8> {
    ConsumerTaskConfig {
        user_agent: "agent".to_string(),
        compression,
        zstd_dictionary_location: "data/zstd_dictionary".to_string(),
        jetstream_hostname: "example.com".to_string(),
        feeds: 3,
        collections: vec!["app.bsky.feed.post".to_string()],
    }
}

fn task(feeds: &[&str]) -> ConsumerTask<u8> {
    let feeds: Vec<String> = feeds.iter().map(|feed| feed.to_string()).collect();
    ConsumerTask::new(config(false), Ok::<_, String>(feeds)).unwrap_or_else(|_| unreachable!())
}

fn session(feeds: &[&str], denied: &[&str]) -> ConsumerSession {
    let denied: Vec<String> = denied.iter().map(|did| did.to_string()).collect();
    task(feeds).start(None, &denied)
}

fn event(did: &str, kind: &str, time_us: i64) -> Event {
    Event { did: did.to_string(), kind: kind.to_string(), time_us }
}

fn read(session: &mut ConsumerSession, event: Event) -> SessionAction {
    let text = FrameContent::Text("{}".to_string());
    assert_eq!(
        session.step(SessionInput::Received(text)),
        SessionAction::ParseText("{}".to_string())
    );
    session.step(SessionInput::Parsed(Some(event)))
}

fn found(op: MatchOperation, uri: &str) -> SessionInput {
    SessionInput::Matched(Some(Match(op, uri.to_string())))
}

fn entry(feed: &str, uri: &str, time_us: i64, op: MatchOperation) -> SessionAction {
    SessionAction::Send(WriteCommand::Content(
        FeedContent {
            feed_id: feed.to_string(),
            uri: uri.to_string(),
            indexed_at: time_us,
            score: 1,
        },
        op,
    ))
}

#[test]
fn intervals_of_the_consumer() {
    assert_eq!(CHECKPOINT_INTERVAL_SECS, 120);
    assert_eq!(HEARTBEAT_INTERVAL_SECS, 15);
    assert_eq!(DENYLIST_INTERVAL_SECS, 60);
}

#[test]
fn task_needs_matchers() {
    let refused = ConsumerTask::new(config(true), Err("bad matcher".to_string()));
    assert_eq!(refused.err(), Some("bad matcher".to_string()));
    assert_eq!(task(&["f"]).config().feeds, 3);
}

#[test]
fn task_connects_as_configured() {
    let task = task(&[]);
    let request = task.connect_request(Some(12)).unwrap();
    assert_eq!(
        request.url,
        "wss://example.com/subscribe?compress=false&requireHello=true&cursor=12"
    );
    assert_eq!(request.user_agent, b"agent".to_vec());
    let SubscriberSourcedMessage::Update { wanted_collections, max_message_size_bytes, .. } =
        task.subscription_update();
    assert_eq!(wanted_collections, vec!["app.bsky.feed.post".to_string()]);
    assert_eq!(max_message_size_bytes, 25000);
    let mut other = config(true);
    other.jetstream_hostname = "no host".to_string();
    let other = ConsumerTask::new(other, Ok::<_, String>(vec![])).unwrap_or_else(|_| unreachable!());
    assert!(matches!(other.connect_request(None), Err(ConnectError::InvalidUrl(_))));
}

#[test]
fn dictionary_is_read_for_compressed_streams() {
    assert_eq!(task(&[]).dictionary_location(), None);
    let compressed =
        ConsumerTask::new(config(true), Ok::<_, String>(vec![])).unwrap_or_else(|_| unreachable!());
    assert_eq!(compressed.dictionary_location(), Some("data/zstd_dictionary"));
    let mut decoder = compressed.frame_decoder(b"").unwrap();
    assert_eq!(
        decoder.decode(Frame::Text("{}".to_string())),
        FrameContent::Skipped(SkipReason::NotBinary)
    );
}

#[test]
fn frames_are_counted_and_sorted() {
    let mut session = session(&["f"], &[]);
    assert_eq!(session.step(SessionInput::Received(FrameContent::Ping)), SessionAction::FlushPong);
    assert_eq!(
        session.step(SessionInput::Received(FrameContent::Skipped(SkipReason::Close))),
        SessionAction::Poll
    );
    assert_eq!(session.step(SessionInput::ReadFailed), SessionAction::Poll);
    assert_eq!(
        session.step(SessionInput::Received(FrameContent::Bytes(vec![1]))),
        SessionAction::ParseBytes(vec![1])
    );
    assert_eq!(session.step(SessionInput::Parsed(None)), SessionAction::Poll);
    assert_eq!(session.messages_read(), 3);
    assert_eq!(
        session.step(SessionInput::HeartbeatDue),
        SessionAction::ReportHeartbeat { time_us: 0, messages_since_last: 3 }
    );
    assert_eq!(
        session.step(SessionInput::HeartbeatDue),
        SessionAction::ReportHeartbeat { time_us: 0, messages_since_last: 0 }
    );
    assert_eq!(session.messages_read(), 3);
}

#[test]
fn cursor_is_the_latest_event_time() {
    let mut session = session(&["f"], &[]);
    assert_eq!(read(&mut session, event("d", "identity", 50)), SessionAction::Poll);
    assert_eq!(read(&mut session, event("d", "account", 20)), SessionAction::Poll);
    assert_eq!(session.time_us(), 50);
    assert_eq!(read(&mut session, event("d", "identity", 60)), SessionAction::Poll);
    assert_eq!(session.time_us(), 60);
    assert_eq!(
        session.step(SessionInput::CheckpointDue),
        SessionAction::Send(WriteCommand::Checkpoint(60))
    );
    assert_eq!(session.step(SessionInput::Sent(true)), SessionAction::RearmCheckpoint);
}

#[test]
fn first_event_is_labelled() {
    let mut session = session(&[], &[]);
    let first = event("d", "identity", 1662921288000000);
    assert_eq!(
        session.first_event_label(&first),
        Some("2022-09-11T18:34:48+00:00".to_string())
    );
    read(&mut session, first);
    assert_eq!(session.first_event_label(&event("d", "identity", 5)), None);
}

#[test]
fn matches_are_sent_in_order() {
    let mut session = session(&["f0", "f1", "f2"], &["did:plc:bad"]);
    assert_eq!(read(&mut session, event("did:plc:a", "commit", 9)), SessionAction::EncodeEvent);
    assert_eq!(session.step(SessionInput::Encoded(true)), SessionAction::RunMatcher(0));
    assert_eq!(
        session.step(found(MatchOperation::Upsert, "at://did:plc:a/c/1")),
        entry("f0", "at://did:plc:a/c/1", 9, MatchOperation::Upsert)
    );
    assert_eq!(session.step(SessionInput::Sent(true)), SessionAction::RunMatcher(1));
    assert_eq!(session.step(SessionInput::Matched(None)), SessionAction::RunMatcher(2));
    assert_eq!(
        session.step(found(MatchOperation::Update, "at://did:plc:b/c/2")),
        entry("f2", "at://did:plc:b/c/2", 9, MatchOperation::Update)
    );
    assert_eq!(session.step(SessionInput::Sent(true)), SessionAction::Poll);
    assert_eq!(*session.stage(), Stage::Polling);
}

#[test]
fn denied_repository_of_the_event_sends_nothing() {
    let mut session = session(&["f0", "f1"], &["did:plc:bad"]);
    read(&mut session, event("did:plc:bad", "commit", 9));
    session.step(SessionInput::Encoded(true));
    assert_eq!(session.step(SessionInput::Matched(None)), SessionAction::RunMatcher(1));
    assert_eq!(
        session.step(found(MatchOperation::Upsert, "at://did:plc:a/c/1")),
        SessionAction::Poll
    );
}

#[test]
fn denied_repository_of_the_entry_ends_the_matching() {
    let mut session = session(&["f0", "f1", "f2"], &["did:plc:bad"]);
    read(&mut session, event("did:plc:a", "commit", 9));
    session.step(SessionInput::Encoded(true));
    session.step(found(MatchOperation::Upsert, "at://did:plc:a/c/1"));
    session.step(SessionInput::Sent(true));
    assert_eq!(
        session.step(found(MatchOperation::Upsert, "at://did:plc:bad/c/1")),
        SessionAction::Poll
    );
    assert_eq!(*session.stage(), Stage::Polling);
}

#[test]
fn denylist_is_replaced() {
    let mut session = session(&["f0"], &["did:plc:old"]);
    assert_eq!(session.step(SessionInput::DenylistDue), SessionAction::LoadDenylist);
    assert_eq!(
        session.step(SessionInput::DenylistLoaded(Some(vec!["did:plc:new".to_string()]))),
        SessionAction::RearmDenylist
    );
    read(&mut session, event("did:plc:new", "commit", 9));
    session.step(SessionInput::Encoded(true));
    assert_eq!(session.step(found(MatchOperation::Upsert, "at://x/c")), SessionAction::Poll);
    read(&mut session, event("did:plc:old", "commit", 9));
    session.step(SessionInput::Encoded(true));
    assert_eq!(
        session.step(found(MatchOperation::Upsert, "at://x/c")),
        entry("f0", "at://x/c", 9, MatchOperation::Upsert)
    );
}

#[test]
fn unreadable_denylist_fails_the_session() {
    let mut session = session(&[], &[]);
    session.step(SessionInput::DenylistDue);
    assert_eq!(
        session.step(SessionInput::DenylistLoaded(None)),
        SessionAction::Fail(SessionError::DenylistUnavailable)
    );
}

#[test]
fn closed_channel_fails_the_session() {
    let mut checkpoint = session(&[], &[]);
    checkpoint.step(SessionInput::CheckpointDue);
    assert_eq!(
        checkpoint.step(SessionInput::Sent(false)),
        SessionAction::Fail(SessionError::WriteChannelClosed)
    );
    let mut delivery = session(&["f0"], &[]);
    read(&mut delivery, event("d", "commit", 9));
    delivery.step(SessionInput::Encoded(true));
    delivery.step(found(MatchOperation::Upsert, "at://x/c"));
    assert_eq!(
        delivery.step(SessionInput::Sent(false)),
        SessionAction::Fail(SessionError::WriteChannelClosed)
    );
}

#[test]
fn commits_without_matchers_are_done_with() {
    let mut session = session(&[], &[]);
    assert_eq!(read(&mut session, event("d", "commit", 9)), SessionAction::EncodeEvent);
    assert_eq!(session.step(SessionInput::Encoded(true)), SessionAction::Poll);
}

#[test]
fn unencodable_commits_are_skipped() {
    let mut session = session(&["f0"], &[]);
    read(&mut session, event("d", "commit", 9));
    assert_eq!(session.step(SessionInput::Encoded(false)), SessionAction::Poll);
    assert_eq!(session.time_us(), 9);
}

#[test]
fn ending_sends_the_cursor() {
    for (input, taken) in [
        (SessionInput::Cancelled, true),
        (SessionInput::Cancelled, false),
        (SessionInput::Closed, true),
        (SessionInput::Closed, false),
    ] {
        let mut session = session(&[], &[]);
        read(&mut session, event("d", "identity", 42));
        assert_eq!(session.step(input), SessionAction::Send(WriteCommand::Checkpoint(42)));
        assert_eq!(session.step(SessionInput::Sent(taken)), SessionAction::Finish);
        assert_eq!(*session.stage(), Stage::Finished);
    }
}

#[test]
fn entries_are_durable_before_their_cursor() {
    let mut session = session(&["f0"], &[]);
    let mut writer = WriterTask::new("example.com".to_string());
    read(&mut session, event("d", "commit", 42));
    session.step(SessionInput::Encoded(true));
    let SessionAction::Send(content) = session.step(found(MatchOperation::Upsert, "at://x/c"))
    else {
        panic!("no entry");
    };
    assert_eq!(writer.step(WriterInput::Command(content)), WriterAction::Receive);
    session.step(SessionInput::Sent(true));
    let SessionAction::Send(checkpoint) = session.step(SessionInput::Cancelled) else {
        panic!("no checkpoint");
    };
    assert_eq!(writer.step(WriterInput::Command(checkpoint)), WriterAction::WriteBatch);
    assert_eq!(writer.batch().len(), 1);
    assert_eq!(writer.batch()[0].0.uri, "at://x/c");
    assert_eq!(writer.step(WriterInput::BatchWritten(true)), WriterAction::PersistCursor(42));
}

#[test]
fn clean_end_leaves_nothing_behind() {
    let mut session = session(&["f0", "f1"], &[]);
    let mut writer = WriterTask::new("example.com".to_string());
    let mut stored = Vec::new();
    let mut cursors = Vec::new();
    let mut inputs = vec![
        SessionInput::Received(FrameContent::Text("{}".to_string())),
        SessionInput::Parsed(Some(event("d", "commit", 5))),
        SessionInput::Encoded(true),
        found(MatchOperation::Upsert, "at://x/1"),
        SessionInput::Sent(true),
        found(MatchOperation::Update, "at://x/2"),
        SessionInput::Sent(true),
        SessionInput::CheckpointDue,
        SessionInput::Sent(true),
        SessionInput::Received(FrameContent::Text("{}".to_string())),
        SessionInput::Parsed(Some(event("d", "commit", 8))),
        SessionInput::Encoded(true),
        SessionInput::Matched(None),
        found(MatchOperation::Upsert, "at://x/3"),
        SessionInput::Sent(true),
        SessionInput::Closed,
        SessionInput::Sent(true),
    ]
    .into_iter();
    let mut commands = Vec::new();
    while let Some(input) = inputs.next() {
        if let SessionAction::Send(command) = session.step(input) {
            commands.push(WriterInput::Command(command));
        }
    }
    assert_eq!(*session.stage(), Stage::Finished);
    commands.push(WriterInput::ChannelClosed);
    for command in commands {
        let mut action = writer.step(command);
        loop {
            action = match action {
                WriterAction::WriteBatch => {
                    for (content, _) in writer.batch() {
                        stored.push(content.uri.clone());
                    }
                    writer.step(WriterInput::BatchWritten(true))
                }
                WriterAction::PersistCursor(time_us) => {
                    cursors.push((time_us, stored.len()));
                    writer.step(WriterInput::CursorPersisted(true))
                }
                _ => break,
            };
        }
    }
    assert_eq!(stored, vec!["at://x/1", "at://x/2", "at://x/3"]);
    assert_eq!(cursors, vec![(5, 2), (8, 3)]);
}

#[test]
fn plain_streams_always_have_a_decoder() {
    let mut decoder = task(&[]).frame_decoder(&[0x37, 0xa4, 0x30, 0xec, 1, 2, 3, 4]).unwrap();
    assert_eq!(
        decoder.decode(Frame::Text("{}".to_string())),
        FrameContent::Text("{}".to_string())
    );
}

#[test]
fn resumed_session_keeps_the_stored_cursor() {
    for end in [SessionInput::Cancelled, SessionInput::Closed] {
        let mut session = task(&[]).start(Some(1000), &vec![]);
        assert_eq!(session.cursor(), 1000);
        assert_eq!(
            session.step(SessionInput::CheckpointDue),
            SessionAction::Send(WriteCommand::Checkpoint(1000))
        );
        assert_eq!(session.step(SessionInput::Sent(true)), SessionAction::RearmCheckpoint);
        assert_eq!(session.step(end), SessionAction::Send(WriteCommand::Checkpoint(1000)));
        assert_eq!(session.step(SessionInput::Sent(true)), SessionAction::Finish);
    }
}

#[test]
fn first_session_ends_without_an_event() {
    let mut session = session(&[], &[]);
    assert_eq!(
        session.step(SessionInput::Closed),
        SessionAction::Send(WriteCommand::Checkpoint(0))
    );
    assert_eq!(session.step(SessionInput::Sent(true)), SessionAction::Finish);
}

#[test]
fn resumed_session_moves_on_with_later_events() {
    let mut session = task(&[]).start(Some(1000), &vec![]);
    let early = event("d", "identity", 900);
    assert!(session.first_event_label(&early).is_some());
    read(&mut session, early);
    assert_eq!(session.time_us(), 900);
    assert_eq!(session.cursor(), 1000);
    assert_eq!(
        session.step(SessionInput::HeartbeatDue),
        SessionAction::ReportHeartbeat { time_us: 900, messages_since_last: 1 }
    );
    read(&mut session, event("d", "identity", 1100));
    assert_eq!(
        session.step(SessionInput::Cancelled),
        SessionAction::Send(WriteCommand::Checkpoint(1100))
    );
}

#[test]
fn frames_without_event_change_no_command() {
    let mut quiet = session(&["f0"], &[]);
    let mut noisy = session(&["f0"], &[]);
    noisy.step(SessionInput::Received(FrameContent::Ping));
    noisy.step(SessionInput::ReadFailed);
    noisy.step(SessionInput::Received(FrameContent::Skipped(SkipReason::NotText)));
    for payload in [FrameContent::Text("{".to_string()), FrameContent::Bytes(vec![0x7b])] {
        noisy.step(SessionInput::Received(payload));
        assert_eq!(*noisy.stage(), Stage::Parsing);
        assert_eq!(noisy.step(SessionInput::Parsed(None)), SessionAction::Poll);
    }
    for session in [&mut quiet, &mut noisy] {
        read(session, event("d", "commit", 9));
        session.step(SessionInput::Encoded(true));
        assert_eq!(
            session.step(found(MatchOperation::Upsert, "at://x/c")),
            entry("f0", "at://x/c", 9, MatchOperation::Upsert)
        );
        session.step(SessionInput::Sent(true));
        assert_eq!(
            session.step(SessionInput::Cancelled),
            SessionAction::Send(WriteCommand::Checkpoint(9))
        );
    }
    assert_eq!((quiet.messages_read(), noisy.messages_read()), (1, 5));
}
