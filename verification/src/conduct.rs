//! What each operation of a consumer and of a writer task does, told by what
//! goes in and what comes out.

use crate::aturi::did_from_aturi;
use crate::connect::{subscribe_url, ConnectError, ConnectRequest, SubscriberSourcedMessage};
use crate::consumer::{
    ConsumerSession, ConsumerTask, ConsumerTaskConfig, Event, EventInFlight, SessionAction,
    SessionError, SessionInput, Stage,
};
use crate::content::{FeedContent, Match, MatchOperation};
use crate::frame::{DecoderError, FrameContent, FrameDecoder};
use crate::writer::{
    FlushReason, WriteCommand, WriterAction, WriterInput, WriterStage, WriterTask,
};
use vstd::prelude::*;

verus! {

/// A consumer can be had whenever there are matchers, and keeps what it was
/// given; the error by which there are none is handed on.
pub proof fn law_task_keeps_configuration<Feeds, E>(
    config: ConsumerTaskConfig<Feeds>,
    matchers: Result<Vec<String>, E>,
    task: Result<ConsumerTask<Feeds>, E>,
)
    requires
        call_ensures(ConsumerTask::<Feeds>::new::<E>, (config, matchers), task),
    ensures
        matchers matches Ok(feeds) ==> task is Ok && task->Ok_0.spec_config() == config
            && task->Ok_0.feed_matchers() == feeds@,
        matchers matches Err(error) ==> task == Err::<ConsumerTask<Feeds>, E>(error),
{
}

/// The configuration that a consumer shows is the one it was given.
pub proof fn law_task_shows_configuration<Feeds, E>(
    config: ConsumerTaskConfig<Feeds>,
    feeds: Vec<String>,
    task: ConsumerTask<Feeds>,
    shown: &ConsumerTaskConfig<Feeds>,
)
    requires
        call_ensures(
            ConsumerTask::<Feeds>::new::<E>,
            (config, Ok::<Vec<String>, E>(feeds)),
            Ok::<ConsumerTask<Feeds>, E>(task),
        ),
        call_ensures(ConsumerTask::<Feeds>::config, (&task,), shown),
    ensures
        *shown == config,
{
}

/// A consumer connects to its host, with its compression and its user agent,
/// at the cursor that it is given.
pub proof fn law_task_connects_as_configured<Feeds, E>(
    config: ConsumerTaskConfig<Feeds>,
    feeds: Vec<String>,
    task: ConsumerTask<Feeds>,
    cursor: Option<i64>,
    hostname: &str,
    url: String,
    request: Result<ConnectRequest, ConnectError>,
)
    requires
        call_ensures(
            ConsumerTask::<Feeds>::new::<E>,
            (config, Ok::<Vec<String>, E>(feeds)),
            Ok::<ConsumerTask<Feeds>, E>(task),
        ),
        call_ensures(ConsumerTask::<Feeds>::connect_request, (&task, cursor), request),
        hostname@ == config.jetstream_hostname@,
        call_ensures(subscribe_url, (hostname, config.compression, cursor), url),
    ensures
        ({
            let agent = vstd::utf8::encode_utf8(config.user_agent@);
            let sendable = forall|i: int|
                0 <= i < agent.len() ==> (#[trigger] agent[i]) == 9 || 32 <= agent[i] < 127
                    || agent[i] > 127;
            match request {
                Ok(request) => {
                    &&& crate::connect::is_uri(url@)
                    &&& sendable
                    &&& request.url@ == url@
                    &&& request.user_agent@ == agent
                },
                Err(ConnectError::InvalidUrl(_)) => !crate::connect::is_uri(url@),
                Err(ConnectError::InvalidUserAgent(_)) => crate::connect::is_uri(url@)
                    && !sendable,
            }
        }),
{
}

/// A consumer subscribes to its collections, all of them and in their order.
pub proof fn law_task_subscribes_as_configured<Feeds, E>(
    config: ConsumerTaskConfig<Feeds>,
    feeds: Vec<String>,
    task: ConsumerTask<Feeds>,
    message: SubscriberSourcedMessage,
)
    requires
        call_ensures(
            ConsumerTask::<Feeds>::new::<E>,
            (config, Ok::<Vec<String>, E>(feeds)),
            Ok::<ConsumerTask<Feeds>, E>(task),
        ),
        call_ensures(ConsumerTask::<Feeds>::subscription_update, (&task,), message),
    ensures
        message matches SubscriberSourcedMessage::Update {
            wanted_collections,
            wanted_dids,
            max_message_size_bytes,
            cursor,
        } && {
            &&& wanted_collections@.len() == config.collections@.len()
            &&& forall|i: int|
                0 <= i < config.collections@.len() ==> #[trigger] wanted_collections@[i]@
                    == config.collections@[i]@
            &&& wanted_dids@.len() == 0
            &&& max_message_size_bytes == 25000
            &&& cursor is None
        },
{
    let SubscriberSourcedMessage::Update { wanted_collections, .. } = message;
    let wanted = crate::connect::texts(wanted_collections@);
    let given = crate::connect::texts(config.collections@);
    assert(wanted.len() == given.len());
    assert forall|i: int| 0 <= i < config.collections@.len() implies #[trigger]
        wanted_collections@[i]@ == config.collections@[i]@ by {
        assert(wanted[i] == given[i]);
    }
}

/// A consumer decodes the stream that it asks for: its dictionary is read, and
/// its decoder has it, just where the stream is compressed.
pub proof fn law_task_decodes_as_configured<Feeds, E>(
    config: ConsumerTaskConfig<Feeds>,
    feeds: Vec<String>,
    task: ConsumerTask<Feeds>,
    location: Option<&str>,
    dictionary: &[u8],
    decoder: Result<FrameDecoder, DecoderError>,
)
    requires
        call_ensures(
            ConsumerTask::<Feeds>::new::<E>,
            (config, Ok::<Vec<String>, E>(feeds)),
            Ok::<ConsumerTask<Feeds>, E>(task),
        ),
        call_ensures(ConsumerTask::<Feeds>::dictionary_location, (&task,), location),
        call_ensures(ConsumerTask::<Feeds>::frame_decoder, (&task, dictionary), decoder),
    ensures
        location is Some <==> config.compression,
        location matches Some(path) ==> path@ == config.zstd_dictionary_location@,
        !config.compression ==> decoder is Ok,
        config.compression ==> (decoder is Ok <==> crate::frame::takes_dictionary(dictionary@)),
        decoder matches Ok(decoder) ==> decoder.compression() == config.compression,
        decoder matches Ok(decoder) ==> config.compression ==> decoder.dictionary() == dictionary@,
{
}

/// Whether a text is in a list.
pub open spec fn is_listed(list: Seq<String>, text: Seq<char>) -> bool {
    exists|i: int| 0 <= i < list.len() && (#[trigger] list[i])@ == text
}

/// The texts in a list are those that are listed.
pub proof fn lemma_texts_in_are_listed(list: Seq<String>, text: Seq<char>)
    ensures
        crate::consumer::texts_in(list).contains(text) <==> is_listed(list, text),
{
    let row = crate::connect::texts(list);
    if row.contains(text) {
        let i = choose|i: int| 0 <= i < row.len() && row[i] == text;
        assert(list[i]@ == text);
    }
    if is_listed(list, text) {
        let i = choose|i: int| 0 <= i < list.len() && (#[trigger] list[i])@ == text;
        assert(row[i] == text);
    }
}

/// A session begins with the feeds of its consumer, the denylist and the cursor
/// that it is given, nothing seen and nothing counted, waiting for a frame.
pub proof fn law_session_begins_as_given<Feeds, E>(
    config: ConsumerTaskConfig<Feeds>,
    feeds: Vec<String>,
    task: ConsumerTask<Feeds>,
    cursor: Option<i64>,
    denylist: &Vec<String>,
    session: ConsumerSession,
)
    requires
        call_ensures(
            ConsumerTask::<Feeds>::new::<E>,
            (config, Ok::<Vec<String>, E>(feeds)),
            Ok::<ConsumerTask<Feeds>, E>(task),
        ),
        call_ensures(ConsumerTask::<Feeds>::start, (&task, cursor, denylist), session),
    ensures
        session@.feeds == feeds@,
        forall|did: Seq<char>| #[trigger]
            session@.denylist.contains(did) <==> is_listed(denylist@, did),
        cursor matches Some(cursor) ==> session@.resumed_at == cursor,
        cursor is None ==> session@.resumed_at == 0,
        session@.time_us == 0,
        session@.messages_read == 0,
        session@.messages_since_heartbeat == 0,
        session@.stage is Polling,
{
    assert forall|did: Seq<char>| #[trigger] session@.denylist.contains(did) <==> is_listed(
        denylist@,
        did,
    ) by {
        lemma_texts_in_are_listed(denylist@, did);
    }
}

/// What the model of histories says of a step is what a session does.
pub proof fn law_session_is_as_modelled(
    session: &mut ConsumerSession,
    input: SessionInput,
    action: SessionAction,
)
    requires
        call_ensures(ConsumerSession::step, (session, input), action),
    ensures
        final(session)@ == old(session)@.after(input),
        action == old(session)@.asks(input),
{
}

/// A session can be told whatever it waits for, in every state that it comes
/// into, up to the largest count of messages.
pub proof fn law_session_can_be_told(session: &mut ConsumerSession, input: SessionInput)
    requires
        old(session)@.messages_since_heartbeat <= old(session)@.messages_read,
        match old(session)@.stage {
            Stage::Matching(_, matcher) | Stage::Delivering(_, matcher) =>
                matcher < old(session)@.feeds.len(),
            _ => true,
        },
        match old(session)@.stage {
            Stage::Polling => input is Cancelled || input is CheckpointDue || input is DenylistDue
                || input is HeartbeatDue || input is Closed || input is ReadFailed || (
            input is Received && old(session)@.messages_read < u64::MAX),
            Stage::Checkpointing | Stage::Delivering(_, _) | Stage::Closing => input is Sent,
            Stage::LoadingDenylist => input is DenylistLoaded,
            Stage::Parsing => input is Parsed,
            Stage::Encoding(_) => input is Encoded,
            Stage::Matching(_, _) => input matches SessionInput::Matched(answer) && (
            answer matches Some(Match(_, uri)) ==> crate::aturi::has_did(uri@)),
            Stage::Finished | Stage::Failed(_) => false,
        },
    ensures
        call_requires(ConsumerSession::step, (session, input)),
{
}

/// What a session may rely on it keeps: the matcher that is asked exists, and
/// no more messages are counted since the heartbeat than in all.
pub proof fn law_session_stays_sound(
    session: &mut ConsumerSession,
    input: SessionInput,
    action: SessionAction,
)
    requires
        call_ensures(ConsumerSession::step, (session, input), action),
    ensures
        final(session)@.messages_since_heartbeat <= final(session)@.messages_read,
        match final(session)@.stage {
            Stage::Matching(_, matcher) | Stage::Delivering(_, matcher) =>
                matcher < final(session)@.feeds.len(),
            _ => true,
        },
{
}

/// The feeds, and the cursor that the connection resumed at, stay as they are,
/// and the time of the stream is that of the latest event.
pub proof fn law_session_follows_the_stream(
    session: &mut ConsumerSession,
    input: SessionInput,
    action: SessionAction,
)
    requires
        call_ensures(ConsumerSession::step, (session, input), action),
    ensures
        final(session)@.feeds == old(session)@.feeds,
        final(session)@.resumed_at == old(session)@.resumed_at,
        old(session)@.time_us <= final(session)@.time_us,
        input matches SessionInput::Parsed(Some(event)) ==> {
            &&& event.time_us <= final(session)@.time_us
            &&& final(session)@.time_us == event.time_us
                || final(session)@.time_us == old(session)@.time_us
        },
        !(input matches SessionInput::Parsed(Some(_)))
            ==> final(session)@.time_us == old(session)@.time_us,
{
}

/// The denylist is the one that was read last, all of it and nothing else.
pub proof fn law_session_takes_over_the_denylist(
    session: &mut ConsumerSession,
    input: SessionInput,
    action: SessionAction,
)
    requires
        call_ensures(ConsumerSession::step, (session, input), action),
    ensures
        match input {
            SessionInput::DenylistLoaded(Some(dids)) => {
                &&& forall|did: Seq<char>| #[trigger]
                    final(session)@.denylist.contains(did) <==> is_listed(dids@, did)
                &&& action is RearmDenylist
                &&& final(session)@.stage is Polling
            },
            SessionInput::DenylistLoaded(None) => {
                &&& final(session)@.denylist == old(session)@.denylist
                &&& action == SessionAction::Fail(SessionError::DenylistUnavailable)
                &&& final(session)@.stage == Stage::Failed(SessionError::DenylistUnavailable)
            },
            SessionInput::DenylistDue => {
                &&& final(session)@.denylist == old(session)@.denylist
                &&& action is LoadDenylist
                &&& final(session)@.stage is LoadingDenylist
            },
            _ => final(session)@.denylist == old(session)@.denylist,
        },
{
    if let SessionInput::DenylistLoaded(Some(dids)) = input {
        assert forall|did: Seq<char>| #[trigger]
            final(session)@.denylist.contains(did) <==> is_listed(dids@, did) by {
            lemma_texts_in_are_listed(dids@, did);
        }
    }
}

/// Each frame is counted once, and a heartbeat reports what was counted since
/// the last one.
pub proof fn law_session_counts_frames(
    session: &mut ConsumerSession,
    input: SessionInput,
    action: SessionAction,
)
    requires
        call_ensures(ConsumerSession::step, (session, input), action),
        old(session)@.messages_since_heartbeat <= old(session)@.messages_read,
        input is Received ==> old(session)@.messages_read < u64::MAX,
    ensures
        final(session)@.messages_read == old(session)@.messages_read + if input is Received {
            1int
        } else {
            0
        },
        match input {
            SessionInput::Received(_) => final(session)@.messages_since_heartbeat
                == old(session)@.messages_since_heartbeat + 1,
            SessionInput::HeartbeatDue => {
                &&& final(session)@.messages_since_heartbeat == 0
                &&& final(session)@.stage is Polling
                &&& action == (SessionAction::ReportHeartbeat {
                    time_us: old(session)@.time_us,
                    messages_since_last: old(session)@.messages_since_heartbeat,
                })
            },
            _ => final(session)@.messages_since_heartbeat == old(session)@.messages_since_heartbeat,
        },
{
}

/// The position of a session is the later of the cursor that it resumed at and
/// the time of the stream.
pub proof fn law_position_is_the_later_time(session: &ConsumerSession, cursor: i64)
    requires
        call_ensures(ConsumerSession::cursor, (session,), cursor),
    ensures
        session@.resumed_at <= cursor,
        session@.time_us <= cursor,
        cursor == session@.resumed_at || cursor == session@.time_us,
{
}

/// The position is handed to the writer whenever that is due and whenever the
/// connection ends, whatever the session has seen.
pub proof fn law_position_is_handed_on(
    session: &mut ConsumerSession,
    input: SessionInput,
    action: SessionAction,
)
    requires
        call_ensures(ConsumerSession::step, (session, input), action),
        input is CheckpointDue || input is Cancelled || input is Closed,
    ensures
        action matches SessionAction::Send(WriteCommand::Checkpoint(cursor)) && {
            &&& old(session)@.resumed_at <= cursor
            &&& old(session)@.time_us <= cursor
            &&& cursor == old(session)@.resumed_at || cursor == old(session)@.time_us
        },
        input is CheckpointDue ==> final(session)@.stage is Checkpointing,
        input is Cancelled || input is Closed ==> final(session)@.stage is Closing,
{
}

/// After a checkpoint that was taken the interval starts anew, and after the
/// last one the session ends. A command that is not taken fails the session,
/// unless it was the last one.
pub proof fn law_session_goes_on_after_sending(
    session: &mut ConsumerSession,
    taken: bool,
    action: SessionAction,
)
    requires
        call_ensures(ConsumerSession::step, (session, SessionInput::Sent(taken)), action),
    ensures
        old(session)@.stage is Checkpointing && taken ==> action is RearmCheckpoint
            && final(session)@.stage is Polling,
        old(session)@.stage is Closing ==> action is Finish && final(session)@.stage is Finished,
        (old(session)@.stage is Checkpointing || old(session)@.stage is Delivering) && !taken ==> {
            &&& action == SessionAction::Fail(SessionError::WriteChannelClosed)
            &&& final(session)@.stage == Stage::Failed(SessionError::WriteChannelClosed)
        },
{
}

/// The payload of a frame is brought to the parser as it is; a ping has its
/// answer flushed; of any other frame, and of one that could not be read,
/// nothing comes.
pub proof fn law_payload_is_parsed(
    session: &mut ConsumerSession,
    input: SessionInput,
    action: SessionAction,
)
    requires
        call_ensures(ConsumerSession::step, (session, input), action),
    ensures
        input matches SessionInput::Received(content) ==> match content {
            FrameContent::Bytes(bytes) => action == SessionAction::ParseBytes(bytes)
                && final(session)@.stage is Parsing,
            FrameContent::Text(text) => action == SessionAction::ParseText(text)
                && final(session)@.stage is Parsing,
            FrameContent::Ping => action is FlushPong && final(session)@.stage is Polling,
            FrameContent::Skipped(_) => action is Poll && final(session)@.stage is Polling,
        },
        input is ReadFailed ==> action is Poll && final(session)@.stage is Polling,
{
}

/// Every commit is brought to the matchers, with its own repository and time,
/// wherever the session resumed and whatever it has seen. Any other event, and
/// a payload that is none, has the session wait for the next frame.
pub proof fn law_commit_is_encoded(
    session: &mut ConsumerSession,
    parsed: Option<Event>,
    action: SessionAction,
)
    requires
        call_ensures(ConsumerSession::step, (session, SessionInput::Parsed(parsed)), action),
    ensures
        match parsed {
            Some(event) => if event.kind@ == "commit"@ {
                &&& action is EncodeEvent
                &&& final(session)@.stage matches Stage::Encoding(held) && held.did == event.did
                    && held.time_us == event.time_us
            } else {
                action is Poll && final(session)@.stage is Polling
            },
            None => action is Poll && final(session)@.stage is Polling,
        },
{
}

/// The first matcher is asked once a commit is encoded; where there is no
/// matcher, or the commit cannot be encoded, the next frame is awaited.
pub proof fn law_first_matcher_is_asked(
    session: &mut ConsumerSession,
    event: EventInFlight,
    encoded: bool,
    action: SessionAction,
)
    requires
        call_ensures(ConsumerSession::step, (session, SessionInput::Encoded(encoded)), action),
        old(session)@.stage == Stage::Encoding(event),
    ensures
        encoded && old(session)@.feeds.len() > 0 ==> action == SessionAction::RunMatcher(0)
            && final(session)@.stage == Stage::Matching(event, 0),
        !encoded || old(session)@.feeds.len() == 0 ==> action is Poll
            && final(session)@.stage is Polling,
{
}

/// Behind a matcher that does not take the event, or whose entry was sent, the
/// next one is asked, for the same event, until there is none left.
pub proof fn law_next_matcher_is_asked(
    session: &mut ConsumerSession,
    event: EventInFlight,
    matcher: usize,
    input: SessionInput,
    action: SessionAction,
)
    requires
        call_ensures(ConsumerSession::step, (session, input), action),
        old(session)@.stage == Stage::Matching(event, matcher) && input == SessionInput::Matched(
            None,
        ) || old(session)@.stage == Stage::Delivering(event, matcher) && input
            == SessionInput::Sent(true),
    ensures
        matcher + 1 < old(session)@.feeds.len() ==> {
            &&& action matches SessionAction::RunMatcher(next) && next == matcher + 1
            &&& final(session)@.stage matches Stage::Matching(held, next) && held == event && next
                == matcher + 1
        },
        matcher + 1 >= old(session)@.feeds.len() ==> action is Poll
            && final(session)@.stage is Polling,
{
    crate::consumer::law_feeds_fit(*old(session));
}

/// A match is sent as an entry of the matcher's feed, with the AT-URI of the
/// match, the time of the event and the operation. It is kept out just where
/// the repository of the event or the one of the entry is on the denylist, and
/// then no further matcher is asked.
pub proof fn law_match_is_sent_unless_denied(
    session: &mut ConsumerSession,
    event: EventInFlight,
    matcher: usize,
    op: MatchOperation,
    uri: String,
    uri_text: &str,
    uri_did: String,
    action: SessionAction,
)
    requires
        call_ensures(
            ConsumerSession::step,
            (session, SessionInput::Matched(Some(Match(op, uri)))),
            action,
        ),
        old(session)@.stage == Stage::Matching(event, matcher),
        uri_text@ == uri@,
        call_ensures(did_from_aturi, (uri_text,), uri_did),
    ensures
        ({
            let denied = old(session)@.denylist.contains(event.did@)
                || old(session)@.denylist.contains(uri_did@);
            &&& denied ==> action is Poll && final(session)@.stage is Polling
            &&& !denied ==> {
                &&& final(session)@.stage == Stage::Delivering(event, matcher)
                &&& action matches SessionAction::Send(WriteCommand::Content(content, sent_op)) && {
                    &&& content.feed_id == old(session)@.feeds[matcher as int]
                    &&& content.uri == uri
                    &&& content.indexed_at == event.time_us
                    &&& content.score == 1
                    &&& sent_op == op
                }
            }
        }),
{
}

/// A session shows what it has seen and what it waits for.
pub proof fn law_session_shows_itself(
    session: &ConsumerSession,
    time_us: i64,
    count: u64,
    stage: &Stage,
)
    requires
        call_ensures(ConsumerSession::time_us, (session,), time_us),
        call_ensures(ConsumerSession::messages_read, (session,), count),
        call_ensures(ConsumerSession::stage, (session,), stage),
    ensures
        time_us == session@.time_us,
        count == session@.messages_read,
        *stage == session@.stage,
{
}

/// An event is labelled just where none was seen before, and then as
/// `event_label` labels its time.
pub proof fn law_first_event_is_labelled(
    session: &ConsumerSession,
    event: &Event,
    label: Option<String>,
    expected: String,
)
    requires
        call_ensures(ConsumerSession::first_event_label, (session, event), label),
        call_ensures(crate::timestamp::event_label, (event.time_us,), expected),
    ensures
        label is Some <==> session@.time_us == 0,
        label matches Some(text) ==> text@ == expected@,
{
}

/// A writer task begins with nothing to write, under the name it was given.
pub proof fn law_writer_begins_empty(source: String, task: WriterTask)
    requires
        call_ensures(WriterTask::new, (source,), task),
    ensures
        task.spec_source() == source@,
        task@.buffer.len() == 0,
        task@.stage is Receiving,
{
}

/// A writer task shows its name, what it would write and what it waits for.
pub proof fn law_writer_shows_itself(
    task: &WriterTask,
    source: &str,
    batch: &Vec<(FeedContent, MatchOperation)>,
    stage: WriterStage,
)
    requires
        call_ensures(WriterTask::source, (task,), source),
        call_ensures(WriterTask::batch, (task,), batch),
        call_ensures(WriterTask::stage, (task,), stage),
    ensures
        source@ == task.spec_source(),
        batch@ == task@.buffer,
        stage == task@.stage,
{
}

/// What the model of histories says of a step is what a writer task does.
pub proof fn law_writer_is_as_modelled(
    task: &mut WriterTask,
    input: WriterInput,
    action: WriterAction,
)
    requires
        call_ensures(WriterTask::step, (task, input), action),
    ensures
        final(task)@ == old(task)@.after(input),
        action == old(task)@.asks(input),
        final(task).spec_source() == old(task).spec_source(),
{
}

/// A writer task can be told whatever it waits for.
pub proof fn law_writer_can_be_told(task: &mut WriterTask, input: WriterInput)
    requires
        match old(task)@.stage {
            WriterStage::Receiving => input is Command || input is ChannelClosed
                || input is FlushDue,
            WriterStage::Flushing(_) => input is BatchWritten,
            WriterStage::Persisting(_) => input is CursorPersisted,
            WriterStage::Finished | WriterStage::Failed => false,
        },
    ensures
        call_requires(WriterTask::step, (task, input)),
{
}

/// An entry is put behind those that wait, and has the batch written once a
/// thousand of them wait.
pub proof fn law_writer_collects_entries(
    task: &mut WriterTask,
    content: FeedContent,
    op: MatchOperation,
    action: WriterAction,
)
    requires
        call_ensures(
            WriterTask::step,
            (task, WriterInput::Command(WriteCommand::Content(content, op))),
            action,
        ),
        old(task)@.stage is Receiving,
    ensures
        final(task)@.buffer.len() == old(task)@.buffer.len() + 1,
        final(task)@.buffer.last() == (content, op),
        final(task)@.buffer.drop_last() == old(task)@.buffer,
        final(task)@.buffer.len() >= 1000 ==> action is WriteBatch && final(task)@.stage
            == WriterStage::Flushing(FlushReason::Full),
        final(task)@.buffer.len() < 1000 ==> action is Receive && final(task)@.stage is Receiving,
{
    assert(final(task)@.buffer.drop_last() =~= old(task)@.buffer);
}

/// A cursor, the end of the interval and the end of the channel have everything
/// written that waits, be it nothing, and what comes next is remembered.
pub proof fn law_writer_flushes_on_demand(
    task: &mut WriterTask,
    input: WriterInput,
    action: WriterAction,
)
    requires
        call_ensures(WriterTask::step, (task, input), action),
        input is FlushDue || input is ChannelClosed || input matches WriterInput::Command(
            WriteCommand::Checkpoint(_),
        ),
    ensures
        action is WriteBatch,
        final(task)@.buffer == old(task)@.buffer,
        final(task)@.stage == WriterStage::Flushing(
            match input {
                WriterInput::FlushDue => FlushReason::Interval,
                WriterInput::Command(WriteCommand::Checkpoint(time_us)) => FlushReason::Checkpoint(
                    time_us,
                ),
                _ => FlushReason::Shutdown,
            },
        ),
{
}

/// Once a batch is written nothing of it waits any more, and what it was written
/// for is done: the cursor is persisted, the task ends, the interval starts
/// anew, or the next command is awaited.
pub proof fn law_writer_goes_on_after_flush(
    task: &mut WriterTask,
    reason: FlushReason,
    action: WriterAction,
)
    requires
        call_ensures(WriterTask::step, (task, WriterInput::BatchWritten(true)), action),
        old(task)@.stage == WriterStage::Flushing(reason),
    ensures
        final(task)@.buffer.len() == 0,
        match reason {
            FlushReason::Checkpoint(time_us) => action == WriterAction::PersistCursor(time_us)
                && final(task)@.stage == WriterStage::Persisting(time_us),
            FlushReason::Shutdown => action is Finish && final(task)@.stage is Finished,
            FlushReason::Interval => action is RearmAndReceive && final(task)@.stage is Receiving,
            FlushReason::Full => action is Receive && final(task)@.stage is Receiving,
        },
{
}

/// Once a cursor is persisted the next command is awaited. A write that failed
/// ends the task, with everything still in hand that was to be written.
pub proof fn law_writer_stops_on_failure(
    task: &mut WriterTask,
    input: WriterInput,
    action: WriterAction,
)
    requires
        call_ensures(WriterTask::step, (task, input), action),
    ensures
        old(task)@.stage is Persisting && input == WriterInput::CursorPersisted(true) ==> {
            &&& action is Receive
            &&& final(task)@.stage is Receiving
            &&& final(task)@.buffer == old(task)@.buffer
        },
        input == WriterInput::CursorPersisted(false) || input == WriterInput::BatchWritten(false)
            ==> {
            &&& action is Fail
            &&& final(task)@.stage is Failed
            &&& final(task)@.buffer == old(task)@.buffer
        },
{
}

} // verus!
