//! The consumer task: follows the event stream, matches commits against the
//! feeds, and hands matched entries and cursors to the writer task.
//!
//! `ConsumerTask` holds what is configured. `ConsumerSession` is the state of
//! one connection. A session holds no socket, timer, matcher or channel: it is
//! told what happened (`SessionInput`) and answers what is to be done next
//! (`SessionAction`).

use crate::aturi::did_from_aturi;
use crate::connect::{
    connect_request, subscription_update, ConnectError, ConnectRequest, SubscriberSourcedMessage,
};
use crate::content::{FeedContent, Match};
use crate::frame::{DecoderError, FrameContent, FrameDecoder};
use crate::timestamp::event_label;
use crate::writer::WriteCommand;
use vstd::hash_set::StringHashSet;
use vstd::prelude::*;

verus! {

/// How often the cursor is handed to the writer task.
pub const CHECKPOINT_INTERVAL_SECS: u64 = 120;

/// How often a heartbeat is reported.
pub const HEARTBEAT_INTERVAL_SECS: u64 = 15;

/// How often the denylist is read anew.
pub const DENYLIST_INTERVAL_SECS: u64 = 60;

/// The score that a matched entry starts with.
pub const MATCH_SCORE: i32 = 1;

/// What a consumer is configured with. The feeds are in the form that the
/// matchers are made from.
#[derive(Clone)]
pub struct ConsumerTaskConfig<Feeds> {
    pub user_agent: String,
    pub compression: bool,
    pub zstd_dictionary_location: String,
    pub jetstream_hostname: String,
    pub feeds: Feeds,
    pub collections: Vec<String>,
}

/// A consumer of one event stream.
pub struct ConsumerTask<Feeds> {
    config: ConsumerTaskConfig<Feeds>,
    feed_matchers: Vec<String>,
}

impl<Feeds> ConsumerTask<Feeds> {
    /// The configuration.
    pub closed spec fn spec_config(&self) -> ConsumerTaskConfig<Feeds> {
        self.config
    }

    /// The feed that each matcher serves, in the order of the matchers.
    pub closed spec fn feed_matchers(&self) -> Seq<String> {
        self.feed_matchers@
    }

    /// A consumer with matchers for its feeds, or the error by which no
    /// matchers could be made of them.
    pub fn new<E>(
        config: ConsumerTaskConfig<Feeds>,
        feed_matchers: Result<Vec<String>, E>,
    ) -> (task: Result<Self, E>)
        ensures
            match feed_matchers {
                Ok(feeds) => task matches Ok(task) && task.spec_config() == config
                    && task.feed_matchers() == feeds@,
                Err(error) => task == Err::<Self, E>(error),
            },
    {
        match feed_matchers {
            Ok(feed_matchers) => Ok(ConsumerTask { config, feed_matchers }),
            Err(error) => Err(error),
        }
    }

    /// The configuration.
    pub fn config(&self) -> (config: &ConsumerTaskConfig<Feeds>)
        ensures
            *config == self.spec_config(),
    {
        &self.config
    }

    /// The request for a connection that resumes at `cursor`.
    pub fn connect_request(&self, cursor: Option<i64>) -> (request: Result<
        ConnectRequest,
        ConnectError,
    >)
        ensures
            ({
                let config = self.spec_config();
                let url = crate::connect::subscribe_url_text(
                    config.jetstream_hostname@,
                    config.compression,
                    cursor,
                );
                let agent = config.user_agent@;
                match request {
                    Ok(request) => {
                        &&& crate::connect::is_uri(url)
                        &&& crate::connect::is_header_text(agent)
                        &&& request.url@ == url
                        &&& request.user_agent@ == vstd::utf8::encode_utf8(agent)
                    },
                    Err(ConnectError::InvalidUrl(_)) => !crate::connect::is_uri(url),
                    Err(ConnectError::InvalidUserAgent(_)) => crate::connect::is_uri(url)
                        && !crate::connect::is_header_text(agent),
                }
            }),
    {
        connect_request(
            self.config.jetstream_hostname.as_str(),
            self.config.compression,
            self.config.user_agent.as_str(),
            cursor,
        )
    }

    /// The message that opens the subscription.
    pub fn subscription_update(&self) -> (message: SubscriberSourcedMessage)
        ensures
            message matches SubscriberSourcedMessage::Update {
                wanted_collections,
                wanted_dids,
                max_message_size_bytes,
                cursor,
            } && {
                &&& crate::connect::texts(wanted_collections@) == crate::connect::texts(
                    self.spec_config().collections@,
                )
                &&& wanted_dids@.len() == 0
                &&& max_message_size_bytes == crate::frame::MAX_MESSAGE_SIZE
                &&& cursor is None
            },
    {
        subscription_update(&self.config.collections)
    }

    /// Where the dictionary of the stream is to be read from: nowhere where
    /// the stream is not compressed.
    pub fn dictionary_location(&self) -> (location: Option<&str>)
        ensures
            match location {
                Some(path) => self.spec_config().compression && path@
                    == self.spec_config().zstd_dictionary_location@,
                None => !self.spec_config().compression,
            },
    {
        if self.config.compression {
            Some(self.config.zstd_dictionary_location.as_str())
        } else {
            None
        }
    }

    /// A decoder for the frames of a connection. There is none only where the
    /// stream is compressed and its dictionary is not taken.
    pub fn frame_decoder(&self, dictionary: &[u8]) -> (decoder: Result<FrameDecoder, DecoderError>)
        ensures
            decoder matches Ok(decoder) ==> {
                &&& decoder.compression() == self.spec_config().compression
                &&& decoder.dictionary() == if self.spec_config().compression {
                    dictionary@
                } else {
                    Seq::<u8>::empty()
                }
            },
            decoder is Ok <==> !self.spec_config().compression || crate::frame::takes_dictionary(
                dictionary@,
            ),
            dictionary@.len() == 0 ==> decoder is Ok,
    {
        FrameDecoder::new(self.config.compression, dictionary)
    }

    /// A session that has seen nothing yet, on a connection that resumes at
    /// `cursor`.
    pub fn start(&self, cursor: Option<i64>, denylist: &Vec<String>) -> (session: ConsumerSession)
        ensures
            session@ == SessionState::initial(self.feed_matchers(), texts_in(denylist@), cursor),
            session@.well_formed(),
    {
        let feeds = self.feed_matchers.clone();
        assert(feeds@ =~= self.feed_matchers@);
        ConsumerSession {
            feeds,
            denylist: denylist_of(denylist),
            resumed_at: match cursor {
                Some(cursor) => cursor,
                None => 0,
            },
            time_us: 0,
            messages_read: 0,
            messages_since_heartbeat: 0,
            stage: Stage::Polling,
        }
    }
}

/// The texts in a list.
pub open spec fn texts_in(list: Seq<String>) -> Set<Seq<char>> {
    crate::connect::texts(list).to_set()
}

fn denylist_of(dids: &Vec<String>) -> (denylist: StringHashSet)
    ensures
        denylist@ == texts_in(dids@),
{
    let mut denylist = StringHashSet::new();
    let mut i: usize = 0;
    assert(denylist@ =~= texts_in(dids@.take(0)));
    while i < dids.len()
        invariant
            i <= dids@.len(),
            denylist@ == texts_in(dids@.take(i as int)),
        decreases dids@.len() - i,
    {
        let ghost seen = crate::connect::texts(dids@.take(i as int));
        let ghost next = crate::connect::texts(dids@.take(i + 1));
        denylist.insert(dids[i].clone());
        proof {
            assert(next =~= seen.push(dids@[i as int]@));
            assert(denylist@ =~= next.to_set()) by {
                assert forall|text: Seq<char>| denylist@.contains(text) == next.contains(text) by {
                    if seen.contains(text) {
                        let k = choose|k: int| 0 <= k < seen.len() && seen[k] == text;
                        assert(next[k] == text);
                    }
                    if text == dids@[i as int]@ {
                        assert(next[i as int] == text);
                    }
                    if next.contains(text) {
                        let k = choose|k: int| 0 <= k < next.len() && next[k] == text;
                        if k < i {
                            assert(seen[k] == text);
                        }
                    }
                }
            }
        }
        i = i + 1;
    }
    assert(dids@.take(dids@.len() as int) =~= dids@);
    denylist
}

/// What the consumer reads of an event.
#[derive(Debug, PartialEq, Eq)]
pub struct Event {
    /// The repository that the event is about.
    pub did: String,
    /// What kind of event it is.
    pub kind: String,
    /// When it happened, in microseconds since the Unix epoch.
    pub time_us: i64,
}

impl Event {
    /// Whether the event is a commit, the one kind that is matched.
    pub open spec fn is_commit(self) -> bool {
        self.kind@ == "commit"@
    }
}

/// What stays known of an event while it is being matched.
#[derive(Debug, PartialEq, Eq)]
pub struct EventInFlight {
    pub did: String,
    pub time_us: i64,
}

/// What ends a session with an error.
#[derive(Debug, Clone, Copy, PartialEq, Eq, Structural)]
pub enum SessionError {
    /// The writer task no longer takes commands.
    WriteChannelClosed,
    /// The denylist could not be read.
    DenylistUnavailable,
}

/// What a session is waiting for.
#[derive(Debug, PartialEq, Eq)]
pub enum Stage {
    /// The next frame, a timer, or the end.
    Polling,
    /// Whether a periodic checkpoint was sent.
    Checkpointing,
    /// The denylist.
    LoadingDenylist,
    /// The event in a frame.
    Parsing,
    /// Whether a commit could be brought into the form that matchers take.
    Encoding(EventInFlight),
    /// What a matcher says of a commit.
    Matching(EventInFlight, usize),
    /// Whether the entry of a matcher was sent.
    Delivering(EventInFlight, usize),
    /// The last checkpoint.
    Closing,
    /// Nothing more: it ended.
    Finished,
    /// Nothing more: it failed.
    Failed(SessionError),
}

/// What a session is told.
#[derive(Debug, PartialEq, Eq)]
pub enum SessionInput {
    /// The task is to stop.
    Cancelled,
    CheckpointDue,
    DenylistDue,
    HeartbeatDue,
    /// The connection was closed.
    Closed,
    /// A frame could not be read.
    ReadFailed,
    /// A frame was read.
    Received(FrameContent),
    /// The event in the frame, if there is one.
    Parsed(Option<Event>),
    /// Whether the event is ready for the matchers.
    Encoded(bool),
    /// What the matcher said.
    Matched(Option<Match>),
    /// Whether the writer task took the command.
    Sent(bool),
    /// The denylist, if it could be read.
    DenylistLoaded(Option<Vec<String>>),
}

/// What is to be done next.
#[derive(Debug, PartialEq, Eq)]
pub enum SessionAction {
    /// Wait for a frame, a timer or the end.
    Poll,
    /// Start the checkpoint interval anew, then wait.
    RearmCheckpoint,
    /// Start the denylist interval anew, then wait.
    RearmDenylist,
    /// Report a heartbeat, start its interval anew, then wait.
    ReportHeartbeat { time_us: i64, messages_since_last: u64 },
    /// Flush the answer to a ping, then wait. The answer is queued when the
    /// ping is read, but sent only on a flush.
    FlushPong,
    /// Read an event out of these bytes.
    ParseBytes(Vec<u8>),
    /// Read an event out of this text.
    ParseText(String),
    /// Bring the event into the form that matchers take.
    EncodeEvent,
    /// Ask the matcher at this place.
    RunMatcher(usize),
    /// Send a command to the writer task.
    Send(WriteCommand),
    /// Read the denylist.
    LoadDenylist,
    /// End the session.
    Finish,
    /// End the session with an error.
    Fail(SessionError),
}

/// The state of a session.
#[verifier::ext_equal]
pub struct SessionState {
    pub feeds: Seq<String>,
    pub denylist: Set<Seq<char>>,
    /// The cursor that the connection resumes at, and 0 where it has none.
    pub resumed_at: i64,
    /// The latest event time seen, and 0 before the first event.
    pub time_us: i64,
    pub messages_read: u64,
    pub messages_since_heartbeat: u64,
    pub stage: Stage,
}

/// The later of two event times.
pub open spec fn later(a: i64, b: i64) -> i64 {
    if a >= b {
        a
    } else {
        b
    }
}

/// The entry that a match makes for a feed.
pub open spec fn matched_content(feed: String, uri: String, time_us: i64) -> FeedContent {
    FeedContent { feed_id: feed, uri, indexed_at: time_us, score: MATCH_SCORE }
}

impl SessionState {
    /// The state before the first frame of a connection that resumes at
    /// `cursor`.
    pub open spec fn initial(
        feeds: Seq<String>,
        denylist: Set<Seq<char>>,
        cursor: Option<i64>,
    ) -> SessionState {
        SessionState {
            feeds,
            denylist,
            resumed_at: match cursor {
                Some(cursor) => cursor,
                None => 0,
            },
            time_us: 0,
            messages_read: 0,
            messages_since_heartbeat: 0,
            stage: Stage::Polling,
        }
    }

    /// How far the stream has been followed: to the latest event seen, but
    /// never less far than where the connection resumed.
    pub open spec fn cursor(self) -> i64 {
        later(self.resumed_at, self.time_us)
    }

    /// A matcher that is being asked or served exists, and no more messages
    /// are counted since the last heartbeat than in all.
    pub open spec fn well_formed(self) -> bool {
        &&& self.messages_since_heartbeat <= self.messages_read
        &&& match self.stage {
            Stage::Matching(_, matcher) | Stage::Delivering(_, matcher) => matcher
                < self.feeds.len(),
            _ => true,
        }
    }

    /// Whether the session can be told this now. The count of messages must
    /// have room, and a match must name an AT-URI that a DID can be cut from.
    pub open spec fn accepts(self, input: SessionInput) -> bool {
        match input {
            SessionInput::Cancelled
            | SessionInput::CheckpointDue
            | SessionInput::DenylistDue
            | SessionInput::HeartbeatDue
            | SessionInput::Closed
            | SessionInput::ReadFailed => self.stage is Polling,
            SessionInput::Received(_) => self.stage is Polling && self.messages_read < u64::MAX,
            SessionInput::Parsed(_) => self.stage is Parsing,
            SessionInput::Encoded(_) => self.stage is Encoding,
            SessionInput::Matched(matched) => self.stage is Matching && (matched matches Some(
                Match(_, uri),
            ) ==> crate::aturi::has_did(uri@)),
            SessionInput::Sent(_) => self.stage is Checkpointing || self.stage is Delivering
                || self.stage is Closing,
            SessionInput::DenylistLoaded(_) => self.stage is LoadingDenylist,
        }
    }

    /// Whether a match is kept out: the repository of the event, or the one of
    /// the entry, is on the denylist.
    pub open spec fn blocks(self, did: Seq<char>, uri: Seq<char>) -> bool {
        self.denylist.contains(did) || self.denylist.contains(crate::aturi::did_of(uri))
    }

    /// The stage in which the matcher at `matcher` is asked, or the next frame
    /// awaited where there is none.
    pub open spec fn matching(self, event: EventInFlight, matcher: int) -> Stage {
        if matcher < self.feeds.len() {
            Stage::Matching(event, matcher as usize)
        } else {
            Stage::Polling
        }
    }

    /// The stage after the session has been told `input`.
    pub open spec fn stage_after(self, input: SessionInput) -> Stage {
        match (self.stage, input) {
            (_, SessionInput::Cancelled) | (_, SessionInput::Closed) => Stage::Closing,
            (_, SessionInput::CheckpointDue) => Stage::Checkpointing,
            (_, SessionInput::DenylistDue) => Stage::LoadingDenylist,
            (_, SessionInput::Received(FrameContent::Bytes(_)))
            | (_, SessionInput::Received(FrameContent::Text(_))) => Stage::Parsing,
            (_, SessionInput::Parsed(Some(event))) => if event.is_commit() {
                Stage::Encoding(EventInFlight { did: event.did, time_us: event.time_us })
            } else {
                Stage::Polling
            },
            (Stage::Encoding(event), SessionInput::Encoded(true)) => self.matching(event, 0),
            (Stage::Matching(event, matcher), SessionInput::Matched(None)) => self.matching(
                event,
                matcher + 1,
            ),
            (
                Stage::Matching(event, matcher),
                SessionInput::Matched(Some(Match(_, uri))),
            ) => if self.blocks(event.did@, uri@) {
                Stage::Polling
            } else {
                Stage::Delivering(event, matcher)
            },
            (Stage::Delivering(event, matcher), SessionInput::Sent(true)) => self.matching(
                event,
                matcher + 1,
            ),
            (Stage::Closing, SessionInput::Sent(_)) => Stage::Finished,
            (_, SessionInput::Sent(false)) => Stage::Failed(SessionError::WriteChannelClosed),
            (_, SessionInput::DenylistLoaded(None)) => Stage::Failed(
                SessionError::DenylistUnavailable,
            ),
            _ => Stage::Polling,
        }
    }

    /// The state after the session has been told `input`.
    pub open spec fn after(self, input: SessionInput) -> SessionState {
        SessionState {
            feeds: self.feeds,
            denylist: match input {
                SessionInput::DenylistLoaded(Some(dids)) => texts_in(dids@),
                _ => self.denylist,
            },
            resumed_at: self.resumed_at,
            time_us: match input {
                SessionInput::Parsed(Some(event)) => later(self.time_us, event.time_us),
                _ => self.time_us,
            },
            messages_read: match input {
                SessionInput::Received(_) => (self.messages_read + 1) as u64,
                _ => self.messages_read,
            },
            messages_since_heartbeat: match input {
                SessionInput::Received(_) => (self.messages_since_heartbeat + 1) as u64,
                SessionInput::HeartbeatDue => 0,
                _ => self.messages_since_heartbeat,
            },
            stage: self.stage_after(input),
        }
    }

    /// What the session asks for when it is told `input`.
    pub open spec fn asks(self, input: SessionInput) -> SessionAction {
        match (self.stage_after(input), input) {
            (Stage::Closing, _) | (Stage::Checkpointing, _) => SessionAction::Send(
                WriteCommand::Checkpoint(self.cursor()),
            ),
            (Stage::LoadingDenylist, _) => SessionAction::LoadDenylist,
            (Stage::Encoding(_), _) => SessionAction::EncodeEvent,
            (Stage::Matching(_, matcher), _) => SessionAction::RunMatcher(matcher),
            (
                Stage::Delivering(event, matcher),
                SessionInput::Matched(Some(Match(op, uri))),
            ) => SessionAction::Send(
                WriteCommand::Content(
                    matched_content(self.feeds[matcher as int], uri, event.time_us),
                    op,
                ),
            ),
            (Stage::Finished, _) => SessionAction::Finish,
            (Stage::Failed(error), _) => SessionAction::Fail(error),
            (_, SessionInput::HeartbeatDue) => SessionAction::ReportHeartbeat {
                time_us: self.time_us,
                messages_since_last: self.messages_since_heartbeat,
            },
            (_, SessionInput::Received(FrameContent::Ping)) => SessionAction::FlushPong,
            (_, SessionInput::Received(FrameContent::Bytes(bytes))) => SessionAction::ParseBytes(
                bytes,
            ),
            (_, SessionInput::Received(FrameContent::Text(text))) => SessionAction::ParseText(text),
            (_, SessionInput::DenylistLoaded(Some(_))) => SessionAction::RearmDenylist,
            (_, SessionInput::Sent(true)) => if self.stage is Checkpointing {
                SessionAction::RearmCheckpoint
            } else {
                SessionAction::Poll
            },
            _ => SessionAction::Poll,
        }
    }
}

/// One connection of a consumer.
pub struct ConsumerSession {
    feeds: Vec<String>,
    denylist: StringHashSet,
    resumed_at: i64,
    time_us: i64,
    messages_read: u64,
    messages_since_heartbeat: u64,
    stage: Stage,
}

impl View for ConsumerSession {
    type V = SessionState;

    closed spec fn view(&self) -> SessionState {
        SessionState {
            feeds: self.feeds@,
            denylist: self.denylist@,
            resumed_at: self.resumed_at,
            time_us: self.time_us,
            messages_read: self.messages_read,
            messages_since_heartbeat: self.messages_since_heartbeat,
            stage: self.stage,
        }
    }
}

impl ConsumerSession {
    /// The latest event time seen, and 0 before the first event.
    pub fn time_us(&self) -> (time_us: i64)
        ensures
            time_us == self@.time_us,
    {
        self.time_us
    }

    /// How far the stream has been followed: what a checkpoint carries.
    pub fn cursor(&self) -> (cursor: i64)
        ensures
            cursor == self@.cursor(),
    {
        if self.resumed_at >= self.time_us {
            self.resumed_at
        } else {
            self.time_us
        }
    }

    /// The number of frames read.
    pub fn messages_read(&self) -> (count: u64)
        ensures
            count == self@.messages_read,
    {
        self.messages_read
    }

    /// What the session is waiting for.
    pub fn stage(&self) -> (stage: &Stage)
        ensures
            *stage == self@.stage,
    {
        &self.stage
    }

    /// The label of the first event, to be called before the session is told
    /// of an event: none where an event has been seen before.
    pub fn first_event_label(&self, event: &Event) -> (text: Option<String>)
        ensures
            match text {
                Some(text) => self@.time_us == 0 && text@ == crate::timestamp::label(
                    event.time_us,
                    crate::timestamp::rfc3339(event.time_us),
                ),
                None => self@.time_us != 0,
            },
    {
        if self.time_us == 0 {
            Some(event_label(event.time_us))
        } else {
            None
        }
    }

    /// Asks the matcher at `matcher`, if there is one.
    fn ask_matcher(&mut self, event: EventInFlight, matcher: usize) -> (action: SessionAction)
        requires
            old(self)@.stage is Polling,
        ensures
            final(self)@ == (SessionState {
                stage: old(self)@.matching(event, matcher as int),
                ..old(self)@
            }),
            action == if matcher < old(self)@.feeds.len() {
                SessionAction::RunMatcher(matcher)
            } else {
                SessionAction::Poll
            },
    {
        if matcher < self.feeds.len() {
            self.stage = Stage::Matching(event, matcher);
            SessionAction::RunMatcher(matcher)
        } else {
            SessionAction::Poll
        }
    }

    /// Tells the session what happened; answers what is to be done next.
    pub fn step(&mut self, input: SessionInput) -> (action: SessionAction)
        requires
            old(self)@.well_formed(),
            old(self)@.accepts(input),
        ensures
            final(self)@ == old(self)@.after(input),
            action == old(self)@.asks(input),
            final(self)@.well_formed(),
    {
        assert(self.feeds.len() == self@.feeds.len());
        let mut stage = Stage::Polling;
        core::mem::swap(&mut self.stage, &mut stage);
        match (stage, input) {
            // Persist the cursor on the way out (including on a disconnect) so
            // progress survives a restart. The writer flushes any remaining
            // buffered writes before persisting it. Where no event came, the
            // cursor is still the one that the connection resumed at.
            (_, SessionInput::Cancelled) | (_, SessionInput::Closed) => {
                self.stage = Stage::Closing;
                SessionAction::Send(WriteCommand::Checkpoint(self.cursor()))
            },
            (_, SessionInput::CheckpointDue) => {
                self.stage = Stage::Checkpointing;
                SessionAction::Send(WriteCommand::Checkpoint(self.cursor()))
            },
            (_, SessionInput::DenylistDue) => {
                self.stage = Stage::LoadingDenylist;
                SessionAction::LoadDenylist
            },
            (_, SessionInput::HeartbeatDue) => {
                let messages_since_last: u64 = self.messages_since_heartbeat;
                self.messages_since_heartbeat = 0;
                SessionAction::ReportHeartbeat { time_us: self.time_us, messages_since_last }
            },
            (_, SessionInput::ReadFailed) => SessionAction::Poll,
            (_, SessionInput::Received(content)) => {
                self.messages_read = self.messages_read + 1;
                self.messages_since_heartbeat = self.messages_since_heartbeat + 1;
                match content {
                    FrameContent::Ping => SessionAction::FlushPong,
                    FrameContent::Skipped(_) => SessionAction::Poll,
                    FrameContent::Bytes(bytes) => {
                        self.stage = Stage::Parsing;
                        SessionAction::ParseBytes(bytes)
                    },
                    FrameContent::Text(text) => {
                        self.stage = Stage::Parsing;
                        SessionAction::ParseText(text)
                    },
                }
            },
            (_, SessionInput::Parsed(None)) => SessionAction::Poll,
            (_, SessionInput::Parsed(Some(event))) => {
                if event.time_us > self.time_us {
                    self.time_us = event.time_us;
                }
                if event.kind == "commit".to_owned() {
                    self.stage = Stage::Encoding(
                        EventInFlight { did: event.did, time_us: event.time_us },
                    );
                    SessionAction::EncodeEvent
                } else {
                    SessionAction::Poll
                }
            },
            (Stage::Encoding(event), SessionInput::Encoded(true)) => self.ask_matcher(event, 0),
            (Stage::Matching(event, matcher), SessionInput::Matched(None)) => self.ask_matcher(
                event,
                matcher + 1,
            ),
            (Stage::Matching(event, matcher), SessionInput::Matched(Some(Match(op, uri)))) => {
                let aturi_did = did_from_aturi(uri.as_str());
                if self.denylist.contains(event.did.as_str()) || self.denylist.contains(
                    aturi_did.as_str(),
                ) {
                    SessionAction::Poll
                } else {
                    let feed_content = FeedContent {
                        feed_id: self.feeds[matcher].clone(),
                        uri,
                        indexed_at: event.time_us,
                        score: MATCH_SCORE,
                    };
                    self.stage = Stage::Delivering(event, matcher);
                    SessionAction::Send(WriteCommand::Content(feed_content, op))
                }
            },
            (Stage::Delivering(event, matcher), SessionInput::Sent(true)) => self.ask_matcher(
                event,
                matcher + 1,
            ),
            (Stage::Closing, SessionInput::Sent(_)) => {
                self.stage = Stage::Finished;
                SessionAction::Finish
            },
            (_, SessionInput::Sent(true)) => SessionAction::RearmCheckpoint,
            (_, SessionInput::Sent(false)) => {
                self.stage = Stage::Failed(SessionError::WriteChannelClosed);
                SessionAction::Fail(SessionError::WriteChannelClosed)
            },
            (_, SessionInput::DenylistLoaded(Some(dids))) => {
                self.denylist = denylist_of(&dids);
                SessionAction::RearmDenylist
            },
            (_, SessionInput::DenylistLoaded(None)) => {
                self.stage = Stage::Failed(SessionError::DenylistUnavailable);
                SessionAction::Fail(SessionError::DenylistUnavailable)
            },
            _ => SessionAction::Poll,
        }
    }
}

/// The places of the feeds are machine integers.
pub proof fn law_feeds_fit(session: ConsumerSession)
    ensures
        session@.feeds.len() <= usize::MAX,
{
    assert(session.feeds@.len() == session.feeds.len());
}

} // verus!
