//! What holds of a consumer session over everything it has been told.

use crate::consumer::{Event, EventInFlight, SessionAction, SessionInput, SessionState, Stage};
use crate::content::{FeedContent, Match, MatchOperation};
use crate::frame::FrameContent;
use crate::writer::WriteCommand;
use vstd::prelude::*;

verus! {

/// The state of a session that began at `start` and has been told `inputs`,
/// one after another.
pub open spec fn session_after(start: SessionState, inputs: Seq<SessionInput>) -> SessionState
    decreases inputs.len(),
{
    if inputs.len() == 0 {
        start
    } else {
        session_after(start, inputs.drop_last()).after(inputs.last())
    }
}

/// Whether each of the inputs came when the session was waiting for it.
pub open spec fn session_follows(start: SessionState, inputs: Seq<SessionInput>) -> bool
    decreases inputs.len(),
{
    inputs.len() == 0 || {
        &&& session_follows(start, inputs.drop_last())
        &&& session_after(start, inputs.drop_last()).accepts(inputs.last())
    }
}

/// What the session asked for on the last of the inputs.
pub open spec fn last_asked(start: SessionState, inputs: Seq<SessionInput>) -> SessionAction
    recommends
        inputs.len() > 0,
{
    session_after(start, inputs.drop_last()).asks(inputs.last())
}

/// The commands that the writer task took, in that order.
pub open spec fn sent_commands(start: SessionState, inputs: Seq<SessionInput>) -> Seq<WriteCommand>
    decreases inputs.len(),
{
    if inputs.len() == 0 {
        Seq::empty()
    } else {
        let before = inputs.drop_last();
        match (last_asked(start, before), inputs.last()) {
            (SessionAction::Send(command), SessionInput::Sent(true)) => sent_commands(
                start,
                before,
            ).push(command),
            _ => sent_commands(start, before),
        }
    }
}

/// The number of frames among the inputs.
pub open spec fn frames_in(inputs: Seq<SessionInput>) -> nat
    decreases inputs.len(),
{
    if inputs.len() == 0 {
        0
    } else {
        frames_in(inputs.drop_last()) + if inputs.last() is Received {
            1nat
        } else {
            0
        }
    }
}

/// The event that a session is busy with.
pub open spec fn event_in_flight(stage: Stage) -> Option<EventInFlight> {
    match stage {
        Stage::Encoding(event) | Stage::Matching(event, _) | Stage::Delivering(event, _) => Some(
            event,
        ),
        _ => None,
    }
}

/// A session stays well-formed, and its counter counts the frames it was told
/// of.
pub proof fn law_messages_are_counted(
    feeds: Seq<String>,
    denylist: Set<Seq<char>>,
    cursor: Option<i64>,
    inputs: Seq<SessionInput>,
)
    requires
        session_follows(SessionState::initial(feeds, denylist, cursor), inputs),
    ensures
        session_after(SessionState::initial(feeds, denylist, cursor), inputs).well_formed(),
        session_after(SessionState::initial(feeds, denylist, cursor), inputs).messages_read == frames_in(
            inputs,
        ),
        session_after(SessionState::initial(feeds, denylist, cursor), inputs).feeds == feeds,
    decreases inputs.len(),
{
    if inputs.len() > 0 {
        law_messages_are_counted(feeds, denylist, cursor, inputs.drop_last());
    }
}

/// The cursor never goes back: what a session has seen at some point it still
/// covers later on.
pub proof fn law_cursor_never_goes_back(start: SessionState, inputs: Seq<SessionInput>, n: int)
    requires
        0 <= n <= inputs.len(),
    ensures
        session_after(start, inputs.take(n)).cursor() <= session_after(start, inputs).cursor(),
    decreases inputs.len(),
{
    if n == inputs.len() {
        assert(inputs.take(n) =~= inputs);
    } else {
        assert(inputs.take(n) =~= inputs.drop_last().take(n));
        law_cursor_never_goes_back(start, inputs.drop_last(), n);
    }
}

/// The cursor covers every event that was read.
pub proof fn law_cursor_covers_events(
    start: SessionState,
    inputs: Seq<SessionInput>,
    k: int,
    event: Event,
)
    requires
        0 <= k < inputs.len(),
        inputs[k] == SessionInput::Parsed(Some(event)),
    ensures
        event.time_us <= session_after(start, inputs).cursor(),
{
    law_cursor_never_goes_back(start, inputs, k + 1);
    assert(inputs.take(k + 1).drop_last() =~= inputs.take(k));
    assert(inputs.take(k + 1).last() == inputs[k]);
}

/// The cursor is the time of some event that was read, or still the one that
/// the connection resumed at.
pub proof fn law_cursor_is_an_event_time(start: SessionState, inputs: Seq<SessionInput>)
    ensures
        ({
            let time_us = session_after(start, inputs).cursor();
            ||| time_us == start.cursor()
            ||| exists|k: int, event: Event|
                0 <= k < inputs.len() && #[trigger] inputs[k] == SessionInput::Parsed(Some(event))
                    && #[trigger] event.time_us == time_us
        }),
    decreases inputs.len(),
{
    if inputs.len() > 0 {
        let before = inputs.drop_last();
        law_cursor_is_an_event_time(start, before);
        let time_us = session_after(start, inputs).cursor();
        if time_us == session_after(start, before).cursor() {
            if time_us != start.cursor() {
                let (k, event) = choose|k: int, event: Event|
                    0 <= k < before.len() && #[trigger] before[k] == SessionInput::Parsed(
                        Some(event),
                    ) && #[trigger] event.time_us == time_us;
                assert(inputs[k] == SessionInput::Parsed(Some(event)));
            }
        } else {
            let event = inputs.last()->Parsed_0->0;
            assert(inputs[inputs.len() - 1] == SessionInput::Parsed(Some(event)));
        }
    }
}

/// A checkpoint carries the cursor, and is sent only while no event is being
/// matched: every event that the cursor covers has been dealt with.
pub proof fn law_checkpoint_carries_cursor(
    start: SessionState,
    inputs: Seq<SessionInput>,
    time_us: i64,
)
    requires
        inputs.len() > 0,
        session_follows(start, inputs),
        last_asked(start, inputs) == SessionAction::Send(WriteCommand::Checkpoint(time_us)),
    ensures
        time_us == session_after(start, inputs).cursor(),
        session_after(start, inputs.drop_last()).stage is Polling,
        event_in_flight(session_after(start, inputs).stage) is None,
{
}

/// Progress is kept: every checkpoint that is asked for, periodic or at the
/// end, with or without an event before it, carries the cursor that the
/// connection resumes at or a later one, and never one before 0.
pub proof fn law_checkpoint_keeps_progress(
    feeds: Seq<String>,
    denylist: Set<Seq<char>>,
    cursor: Option<i64>,
    inputs: Seq<SessionInput>,
    time_us: i64,
)
    requires
        inputs.len() > 0,
        session_follows(SessionState::initial(feeds, denylist, cursor), inputs),
        last_asked(SessionState::initial(feeds, denylist, cursor), inputs) == SessionAction::Send(
            WriteCommand::Checkpoint(time_us),
        ),
    ensures
        cursor matches Some(resumed_at) ==> resumed_at <= time_us,
        0 <= time_us,
{
    let start = SessionState::initial(feeds, denylist, cursor);
    law_checkpoint_carries_cursor(start, inputs, time_us);
    law_cursor_never_goes_back(start, inputs, 0);
    assert(inputs.take(0) =~= Seq::<SessionInput>::empty());
}

/// An entry is sent only for a match that the denylist lets through, and holds
/// the feed of the matcher, the AT-URI of the match, and the time of the event.
pub proof fn law_denylist_is_respected(
    start: SessionState,
    inputs: Seq<SessionInput>,
    content: FeedContent,
    op: MatchOperation,
)
    requires
        inputs.len() > 0,
        session_follows(start, inputs),
        last_asked(start, inputs) == SessionAction::Send(WriteCommand::Content(content, op)),
    ensures
        ({
            let state = session_after(start, inputs.drop_last());
            &&& inputs.last() == SessionInput::Matched(Some(Match(op, content.uri)))
            &&& state.stage matches Stage::Matching(event, matcher) && {
                &&& !state.denylist.contains(event.did@)
                &&& !state.denylist.contains(crate::aturi::did_of(content.uri@))
                &&& content.feed_id == state.feeds[matcher as int]
                &&& content.indexed_at == event.time_us
                &&& content.score == 1
            }
        }),
{
}

/// The event that a session is busy with is covered by the cursor, and so is
/// every entry that it sends.
pub proof fn law_entries_are_covered(
    feeds: Seq<String>,
    denylist: Set<Seq<char>>,
    cursor: Option<i64>,
    inputs: Seq<SessionInput>,
)
    requires
        session_follows(SessionState::initial(feeds, denylist, cursor), inputs),
    ensures
        ({
            let start = SessionState::initial(feeds, denylist, cursor);
            let state = session_after(start, inputs);
            &&& event_in_flight(state.stage) matches Some(event) ==> event.time_us <= state.cursor()
            &&& inputs.len() > 0 ==> (last_asked(start, inputs) matches SessionAction::Send(
                WriteCommand::Content(content, _),
            ) ==> content.indexed_at <= state.cursor())
        }),
    decreases inputs.len(),
{
    if inputs.len() > 0 {
        law_entries_are_covered(feeds, denylist, cursor, inputs.drop_last());
    }
}

/// A session ends without an error only after it has asked for the cursor to
/// be persisted, whether or not that was taken.
pub proof fn law_end_asks_for_checkpoint(
    feeds: Seq<String>,
    denylist: Set<Seq<char>>,
    cursor: Option<i64>,
    inputs: Seq<SessionInput>,
)
    requires
        session_follows(SessionState::initial(feeds, denylist, cursor), inputs),
        session_after(SessionState::initial(feeds, denylist, cursor), inputs).stage is Finished,
    ensures
        ({
            let start = SessionState::initial(feeds, denylist, cursor);
            let before = inputs.drop_last();
            &&& inputs.len() >= 2
            &&& inputs.last() is Sent
            &&& before.last() is Cancelled || before.last() is Closed
            &&& last_asked(start, before) == SessionAction::Send(
                WriteCommand::Checkpoint(session_after(start, inputs).cursor()),
            )
        }),
{
    let before = inputs.drop_last();
    let start = SessionState::initial(feeds, denylist, cursor);
    assert(session_after(start, before).stage is Closing);
    assert(session_follows(start, before));
    assert(before.len() > 0);
    assert(session_after(start, before.drop_last()).accepts(before.last()));
}

/// The inputs that report on an action: what was waited for, or what came of
/// what was asked for.
pub open spec fn reports_on(action: SessionAction, input: SessionInput) -> bool {
    match action {
        SessionAction::Poll
        | SessionAction::RearmCheckpoint
        | SessionAction::RearmDenylist
        | SessionAction::ReportHeartbeat { .. }
        | SessionAction::FlushPong => input is Cancelled || input is CheckpointDue
            || input is DenylistDue || input is HeartbeatDue || input is Closed
            || input is ReadFailed || input is Received,
        SessionAction::ParseBytes(_) | SessionAction::ParseText(_) => input is Parsed,
        SessionAction::EncodeEvent => input is Encoded,
        SessionAction::RunMatcher(_) => input is Matched,
        SessionAction::Send(_) => input is Sent,
        SessionAction::LoadDenylist => input is DenylistLoaded,
        SessionAction::Finish | SessionAction::Fail(_) => false,
    }
}

/// Doing what the session asks for and reporting on it is all that the session
/// wants of its surroundings: just the reports on its last action are
/// accepted, as long as the count of messages has room and matches name
/// AT-URIs that a DID can be cut from.
pub proof fn law_session_reports_are_accepted(
    state: SessionState,
    input: SessionInput,
    report: SessionInput,
)
    requires
        state.accepts(input),
    ensures
        state.after(input).accepts(report) <==> {
            &&& reports_on(state.asks(input), report)
            &&& report is Received ==> state.after(input).messages_read < u64::MAX
            &&& report matches SessionInput::Matched(Some(Match(_, uri))) ==> crate::aturi::has_did(
                uri@,
            )
        },
{
}

/// A ping has its answer flushed, and a frame without an event leaves all but
/// the counters as it was.
pub proof fn law_frames_without_event_change_nothing(state: SessionState, content: FrameContent)
    requires
        state.accepts(SessionInput::Received(content)),
        content is Ping || content is Skipped,
    ensures
        ({
            let input = SessionInput::Received(content);
            &&& state.asks(input) == if content is Ping {
                SessionAction::FlushPong
            } else {
                SessionAction::Poll
            }
            &&& state.after(input) == (SessionState {
                messages_read: (state.messages_read + 1) as u64,
                messages_since_heartbeat: (state.messages_since_heartbeat + 1) as u64,
                ..state
            })
        }),
{
}

/// An ended session takes no further input.
pub proof fn law_session_end_is_final(state: SessionState, input: SessionInput)
    requires
        state.stage is Finished || state.stage is Failed,
    ensures
        !state.accepts(input),
{
}

/// Whether a matcher's answer is a match that the denylist keeps out.
pub open spec fn is_blocked(state: SessionState, did: Seq<char>, answer: Option<Match>) -> bool {
    answer matches Some(Match(_, uri)) && state.blocks(did, uri@)
}

/// How many answers come before the first that is kept out.
pub open spec fn answers_before_block(
    state: SessionState,
    did: Seq<char>,
    answers: Seq<Option<Match>>,
) -> nat
    decreases answers.len(),
{
    if answers.len() == 0 || is_blocked(state, did, answers[0]) {
        0
    } else {
        1 + answers_before_block(state, did, answers.drop_first())
    }
}

/// The commands that answers give rise to, where the first of them is from the
/// matcher at `matcher`: an entry for each match, in the order of the matchers.
pub open spec fn entries(
    feeds: Seq<String>,
    time_us: i64,
    matcher: int,
    answers: Seq<Option<Match>>,
) -> Seq<WriteCommand>
    decreases answers.len(),
{
    if answers.len() == 0 {
        Seq::empty()
    } else {
        let rest = entries(feeds, time_us, matcher + 1, answers.drop_first());
        match answers[0] {
            Some(Match(op, uri)) => seq![
                WriteCommand::Content(
                    crate::consumer::matched_content(feeds[matcher], uri, time_us),
                    op,
                ),
            ] + rest,
            None => rest,
        }
    }
}

/// Leads a session through the answers of its matchers, with every command
/// taken: where it ends up, and what it sent. Answers that it does not ask for
/// are left out.
pub open spec fn serve(state: SessionState, answers: Seq<Option<Match>>) -> (
    SessionState,
    Seq<WriteCommand>,
)
    decreases answers.len(),
{
    if answers.len() == 0 || !(state.stage is Matching) {
        (state, Seq::empty())
    } else {
        let input = SessionInput::Matched(answers[0]);
        let next = state.after(input);
        match state.asks(input) {
            SessionAction::Send(command) => {
                let (end, rest) = serve(
                    next.after(SessionInput::Sent(true)),
                    answers.drop_first(),
                );
                (end, seq![command] + rest)
            },
            _ => serve(next, answers.drop_first()),
        }
    }
}

/// What a session is told while it is led through the answers of its matchers,
/// with every command taken.
pub open spec fn conversation(state: SessionState, answers: Seq<Option<Match>>) -> Seq<SessionInput>
    decreases answers.len(),
{
    if answers.len() == 0 || !(state.stage is Matching) {
        Seq::empty()
    } else {
        let input = SessionInput::Matched(answers[0]);
        let sent = SessionInput::Sent(true);
        let next = state.after(input);
        match state.asks(input) {
            SessionAction::Send(_) => seq![input, sent] + conversation(
                next.after(sent),
                answers.drop_first(),
            ),
            _ => seq![input] + conversation(next, answers.drop_first()),
        }
    }
}

/// A history in two parts is the second part, begun where the first one ended.
proof fn lemma_history_concat(start: SessionState, a: Seq<SessionInput>, b: Seq<SessionInput>)
    ensures
        session_after(start, a + b) == session_after(session_after(start, a), b),
        session_follows(start, a + b) <==> session_follows(start, a) && session_follows(
            session_after(start, a),
            b,
        ),
    decreases b.len(),
{
    if b.len() == 0 {
        assert(a + b =~= a);
    } else {
        assert((a + b).drop_last() =~= a + b.drop_last());
        lemma_history_concat(start, a, b.drop_last());
    }
}

/// What is sent in two parts of a history adds up, if the second part does not
/// begin with a report on a command of the first.
proof fn lemma_sent_concat(start: SessionState, a: Seq<SessionInput>, b: Seq<SessionInput>)
    requires
        b.len() == 0 || !(b[0] is Sent),
    ensures
        sent_commands(start, a + b) == sent_commands(start, a) + sent_commands(
            session_after(start, a),
            b,
        ),
    decreases b.len(),
{
    let middle = session_after(start, a);
    if b.len() == 0 {
        assert(a + b =~= a);
        assert(sent_commands(start, a) + sent_commands(middle, b) =~= sent_commands(start, a));
    } else {
        let front = b.drop_last();
        assert((a + b).drop_last() =~= a + front);
        lemma_sent_concat(start, a, front);
        if front.len() > 0 {
            assert((a + front).drop_last() =~= a + front.drop_last());
            lemma_history_concat(start, a, front.drop_last());
            assert(last_asked(start, a + front) == last_asked(middle, front));
        }
        assert(sent_commands(start, a + b) =~= sent_commands(start, a) + sent_commands(middle, b));
    }
}

/// Whether two states differ in their counters at most.
pub open spec fn same_but_counters(state: SessionState, other: SessionState) -> bool {
    &&& state.feeds == other.feeds
    &&& state.denylist == other.denylist
    &&& state.resumed_at == other.resumed_at
    &&& state.time_us == other.time_us
    &&& state.stage == other.stage
}

/// The counters decide nothing: what is sent does not depend on them.
proof fn lemma_counters_decide_nothing(
    state: SessionState,
    other: SessionState,
    inputs: Seq<SessionInput>,
)
    requires
        same_but_counters(state, other),
        inputs.len() == 0 || !(inputs[0] is Sent),
    ensures
        same_but_counters(session_after(state, inputs), session_after(other, inputs)),
        sent_commands(state, inputs) == sent_commands(other, inputs),
    decreases inputs.len(),
{
    if inputs.len() > 0 {
        let before = inputs.drop_last();
        lemma_counters_decide_nothing(state, other, before);
        if before.len() > 0 {
            lemma_counters_decide_nothing(state, other, before.drop_last());
        }
    }
}

/// In a history that is followed the first input is accepted at the start.
proof fn lemma_first_is_accepted(start: SessionState, inputs: Seq<SessionInput>)
    requires
        inputs.len() > 0,
        session_follows(start, inputs),
    ensures
        start.accepts(inputs[0]),
    decreases inputs.len(),
{
    if inputs.len() > 1 {
        lemma_first_is_accepted(start, inputs.drop_last());
    } else {
        assert(inputs.drop_last() =~= Seq::<SessionInput>::empty());
    }
}

/// Whether this is what a session is told of a frame that gives it no event:
/// one that could not be read, one that holds no payload to process, or one
/// whose payload is no event.
pub open spec fn is_without_event(frame: Seq<SessionInput>) -> bool {
    ||| frame == seq![SessionInput::ReadFailed]
    ||| {
        &&& frame.len() == 1
        &&& frame[0] matches SessionInput::Received(content) && (content is Ping
            || content is Skipped)
    }
    ||| {
        &&& frame.len() == 2
        &&& frame[0] matches SessionInput::Received(content) && (content is Bytes
            || content is Text)
        &&& frame[1] == SessionInput::Parsed(None)
    }
}

/// A frame without an event leaves a waiting session as it was but for its
/// counters, with nothing sent.
proof fn lemma_frame_without_event(state: SessionState, frame: Seq<SessionInput>)
    requires
        state.stage is Polling,
        is_without_event(frame),
    ensures
        frame.len() > 0,
        !(frame[0] is Sent),
        same_but_counters(session_after(state, frame), state),
        sent_commands(state, frame) == Seq::<WriteCommand>::empty(),
{
    lemma_single_step(state, frame[0]);
    if frame.len() == 1 {
        assert(frame =~= seq![frame[0]]);
    } else {
        assert(frame.drop_last() =~= seq![frame[0]]);
    }
}

/// A frame without an event changes no command: wherever it comes while the
/// session waits, the session sends the same, and ends up the same but for its
/// counters.
pub proof fn law_frames_without_event_change_no_command(
    start: SessionState,
    earlier: Seq<SessionInput>,
    frame: Seq<SessionInput>,
    later: Seq<SessionInput>,
)
    requires
        session_follows(start, earlier + later),
        session_after(start, earlier).stage is Polling,
        is_without_event(frame),
    ensures
        same_but_counters(
            session_after(start, earlier + frame + later),
            session_after(start, earlier + later),
        ),
        sent_commands(start, earlier + frame + later) == sent_commands(start, earlier + later),
{
    let middle = session_after(start, earlier);
    lemma_history_concat(start, earlier, later);
    if later.len() > 0 {
        lemma_first_is_accepted(middle, later);
    }
    lemma_sent_concat(start, earlier, later);
    lemma_frame_without_event(middle, frame);
    lemma_history_concat(start, earlier, frame);
    lemma_sent_concat(start, earlier, frame);
    lemma_history_concat(start, earlier + frame, later);
    lemma_sent_concat(start, earlier + frame, later);
    lemma_counters_decide_nothing(session_after(middle, frame), middle, later);
    assert(sent_commands(start, earlier) + Seq::<WriteCommand>::empty() =~= sent_commands(
        start,
        earlier,
    ));
}

/// A history of one step.
proof fn lemma_single_step(start: SessionState, input: SessionInput)
    ensures
        session_after(start, seq![input]) == start.after(input),
        session_follows(start, seq![input]) <==> start.accepts(input),
        !(input is Sent) ==> sent_commands(start, seq![input]) == Seq::<WriteCommand>::empty(),
{
    let steps = seq![input];
    let none = Seq::<SessionInput>::empty();
    assert(steps.drop_last() =~= none);
    assert(session_after(start, none) == start);
    assert(session_follows(start, none));
    assert(sent_commands(start, none) == Seq::<WriteCommand>::empty());
}

/// Leading a session through the answers of its matchers is a history like any
/// other: the session accepts each step, ends where `serve` says, and has sent
/// what `serve` says.
pub proof fn law_serving_is_a_history(state: SessionState, answers: Seq<Option<Match>>)
    requires
        state.well_formed(),
        forall|i: int|
            0 <= i < answers.len() ==> (#[trigger] answers[i] matches Some(Match(_, uri))
                ==> crate::aturi::has_did(uri@)),
    ensures
        session_follows(state, conversation(state, answers)),
        session_after(state, conversation(state, answers)) == serve(state, answers).0,
        sent_commands(state, conversation(state, answers)) == serve(state, answers).1,
    decreases answers.len(),
{
    if answers.len() > 0 && state.stage is Matching {
        let input = SessionInput::Matched(answers[0]);
        let sent = SessionInput::Sent(true);
        let rest = answers.drop_first();
        assert forall|i: int| 0 <= i < rest.len() implies (#[trigger] rest[i] matches Some(
            Match(_, uri),
        ) ==> crate::aturi::has_did(uri@)) by {
            assert(rest[i] == answers[i + 1]);
        }
        let next = state.after(input);
        match state.asks(input) {
            SessionAction::Send(command) => {
                let onward = next.after(sent);
                let head = seq![input, sent];
                assert(head.drop_last() =~= seq![input]);
                assert(head.drop_last().drop_last() =~= Seq::<SessionInput>::empty());
                lemma_single_step(state, input);
                assert(session_after(state, head) == onward);
                assert(session_follows(state, head));
                assert(last_asked(state, head.drop_last()) == state.asks(input)) by {
                    assert(session_after(state, head.drop_last().drop_last()) == state);
                }
                assert(sent_commands(state, head) =~= seq![command]);
                law_serving_is_a_history(onward, rest);
                lemma_history_concat(state, head, conversation(onward, rest));
                lemma_sent_concat(state, head, conversation(onward, rest));
            },
            _ => {
                let head = seq![input];
                lemma_single_step(state, input);
                law_serving_is_a_history(next, rest);
                lemma_history_concat(state, head, conversation(next, rest));
                lemma_sent_concat(state, head, conversation(next, rest));
                assert(Seq::<WriteCommand>::empty() + serve(next, rest).1 =~= serve(next, rest).1);
            },
        }
    }
}

/// An event gives rise to one entry for each matcher that takes it, in the
/// order of the matchers, up to the first match that the denylist keeps out;
/// from there on no matcher is asked. Afterwards the session waits for the
/// next frame, with everything else as it was.
pub proof fn law_event_is_served(
    state: SessionState,
    event: EventInFlight,
    matcher: usize,
    answers: Seq<Option<Match>>,
)
    requires
        state.well_formed(),
        state.stage == Stage::Matching(event, matcher),
        state.feeds.len() <= usize::MAX,
        answers.len() == state.feeds.len() - matcher,
    ensures
        serve(state, answers).0 == (SessionState { stage: Stage::Polling, ..state }),
        serve(state, answers).1 == entries(
            state.feeds,
            event.time_us,
            matcher as int,
            answers.take(answers_before_block(state, event.did@, answers) as int),
        ),
    decreases answers.len(),
{
    let rest = answers.drop_first();
    let open = answers_before_block(state, event.did@, answers) as int;
    lemma_answers_before_block_bound(state, event.did@, answers);
    let input = SessionInput::Matched(answers[0]);
    let next = state.after(input);
    if is_blocked(state, event.did@, answers[0]) {
        assert(serve(next, rest) == (next, Seq::<WriteCommand>::empty()));
    } else {
        let onward = SessionState { stage: state.matching(event, matcher + 1), ..state };
        if answers[0] is Some {
            assert(next.after(SessionInput::Sent(true)) =~= onward);
        } else {
            assert(next =~= onward);
        }
        assert(answers.take(open).drop_first() =~= rest.take(open - 1));
        if matcher + 1 < state.feeds.len() {
            lemma_answers_before_block_frame(state, onward, event.did@, rest);
            law_event_is_served(onward, event, (matcher + 1) as usize, rest);
        } else {
            assert(rest.len() == 0);
            assert(serve(onward, rest) == (onward, Seq::<WriteCommand>::empty()));
        }
        let tail = entries(state.feeds, event.time_us, matcher + 1, rest.take(open - 1));
        assert(serve(onward, rest).1 == tail);
        assert(answers.take(open)[0] == answers[0]);
    }
}

proof fn lemma_answers_before_block_bound(
    state: SessionState,
    did: Seq<char>,
    answers: Seq<Option<Match>>,
)
    ensures
        answers_before_block(state, did, answers) <= answers.len(),
    decreases answers.len(),
{
    if answers.len() > 0 {
        lemma_answers_before_block_bound(state, did, answers.drop_first());
    }
}

/// Where the first kept out answer stands depends on the denylist alone.
proof fn lemma_answers_before_block_frame(
    state: SessionState,
    other: SessionState,
    did: Seq<char>,
    answers: Seq<Option<Match>>,
)
    requires
        state.denylist == other.denylist,
    ensures
        answers_before_block(state, did, answers) == answers_before_block(other, did, answers),
    decreases answers.len(),
{
    if answers.len() > 0 {
        lemma_answers_before_block_frame(state, other, did, answers.drop_first());
    }
}

/// An event of a repository on the denylist gives rise to no entry at all.
pub proof fn law_denied_event_sends_nothing(
    state: SessionState,
    event: EventInFlight,
    matcher: usize,
    answers: Seq<Option<Match>>,
)
    requires
        state.well_formed(),
        state.stage == Stage::Matching(event, matcher),
        state.feeds.len() <= usize::MAX,
        answers.len() == state.feeds.len() - matcher,
        state.denylist.contains(event.did@),
    ensures
        serve(state, answers).1 == Seq::<WriteCommand>::empty(),
{
    law_event_is_served(state, event, matcher, answers);
    lemma_denied_entries_are_empty(state, event, matcher as int, answers);
}

proof fn lemma_denied_entries_are_empty(
    state: SessionState,
    event: EventInFlight,
    matcher: int,
    answers: Seq<Option<Match>>,
)
    requires
        state.denylist.contains(event.did@),
    ensures
        entries(
            state.feeds,
            event.time_us,
            matcher,
            answers.take(answers_before_block(state, event.did@, answers) as int),
        ) == Seq::<WriteCommand>::empty(),
    decreases answers.len(),
{
    let open = answers_before_block(state, event.did@, answers) as int;
    lemma_answers_before_block_bound(state, event.did@, answers);
    if open > 0 {
        assert(answers.take(open).drop_first() =~= answers.drop_first().take(open - 1));
        lemma_denied_entries_are_empty(state, event, matcher + 1, answers.drop_first());
    }
}

/// The event that was read last.
pub open spec fn last_event(inputs: Seq<SessionInput>) -> Option<Event>
    decreases inputs.len(),
{
    if inputs.len() == 0 {
        None
    } else {
        match inputs.last() {
            SessionInput::Parsed(Some(event)) => Some(event),
            _ => last_event(inputs.drop_last()),
        }
    }
}

/// Whether a repository is denied: it is on the denylist that was read last, or
/// on the one at the start where none was read since.
pub open spec fn is_denied(
    denylist: Set<Seq<char>>,
    inputs: Seq<SessionInput>,
    did: Seq<char>,
) -> bool
    decreases inputs.len(),
{
    if inputs.len() == 0 {
        denylist.contains(did)
    } else {
        match inputs.last() {
            SessionInput::DenylistLoaded(Some(dids)) => crate::conduct::is_listed(dids@, did),
            _ => is_denied(denylist, inputs.drop_last(), did),
        }
    }
}

/// The event that a session is busy with is a commit, and the one that was read
/// last.
pub proof fn law_event_in_flight_is_the_last(
    feeds: Seq<String>,
    denylist: Set<Seq<char>>,
    cursor: Option<i64>,
    inputs: Seq<SessionInput>,
)
    requires
        session_follows(SessionState::initial(feeds, denylist, cursor), inputs),
    ensures
        ({
            let state = session_after(SessionState::initial(feeds, denylist, cursor), inputs);
            event_in_flight(state.stage) matches Some(held) ==> last_event(inputs) matches Some(event)
                && {
                &&& held.did == event.did
                &&& held.time_us == event.time_us
                &&& event.kind@ == "commit"@
            }
        }),
    decreases inputs.len(),
{
    if inputs.len() > 0 {
        law_event_in_flight_is_the_last(feeds, denylist, cursor, inputs.drop_last());
    }
}

/// The denylist of a session is the one that was read last.
pub proof fn law_denylist_is_the_last(
    feeds: Seq<String>,
    denylist: Set<Seq<char>>,
    cursor: Option<i64>,
    inputs: Seq<SessionInput>,
    did: Seq<char>,
)
    requires
        session_follows(SessionState::initial(feeds, denylist, cursor), inputs),
    ensures
        session_after(
            SessionState::initial(feeds, denylist, cursor),
            inputs,
        ).denylist.contains(did) <==> is_denied(denylist, inputs, did),
    decreases inputs.len(),
{
    if inputs.len() > 0 {
        law_denylist_is_the_last(feeds, denylist, cursor, inputs.drop_last(), did);
        if let SessionInput::DenylistLoaded(Some(dids)) = inputs.last() {
            crate::conduct::lemma_texts_in_are_listed(dids@, did);
        }
    }
}

/// An entry is asked for only on a match, for a commit whose repository is not
/// denied and with an AT-URI whose repository is not denied. It holds the
/// AT-URI and the operation of the match, and the time of the event.
pub proof fn law_entry_is_of_an_undenied_commit(
    feeds: Seq<String>,
    denylist: Set<Seq<char>>,
    cursor: Option<i64>,
    inputs: Seq<SessionInput>,
    content: FeedContent,
    op: MatchOperation,
)
    requires
        inputs.len() > 0,
        session_follows(SessionState::initial(feeds, denylist, cursor), inputs),
        last_asked(SessionState::initial(feeds, denylist, cursor), inputs) == SessionAction::Send(
            WriteCommand::Content(content, op),
        ),
    ensures
        inputs.last() == SessionInput::Matched(Some(Match(op, content.uri))),
        last_event(inputs) matches Some(event) && {
            &&& event.kind@ == "commit"@
            &&& !is_denied(denylist, inputs, event.did@)
            &&& content.indexed_at == event.time_us
        },
        !is_denied(denylist, inputs, crate::aturi::did_of(content.uri@)),
        feeds.contains(content.feed_id),
        content.score == 1,
{
    let before = inputs.drop_last();
    let start = SessionState::initial(feeds, denylist, cursor);
    let state = session_after(start, before);
    law_denylist_is_respected(start, inputs, content, op);
    law_event_in_flight_is_the_last(feeds, denylist, cursor, before);
    law_messages_are_counted(feeds, denylist, cursor, before);
    let event = last_event(before)->0;
    law_denylist_is_the_last(feeds, denylist, cursor, before, event.did@);
    law_denylist_is_the_last(
        feeds,
        denylist,
        cursor,
        before,
        crate::aturi::did_of(content.uri@),
    );
    assert(feeds[state.stage->Matching_1 as int] == content.feed_id);
}

/// Wherever a session resumed, every commit that it reads is to be encoded, and
/// once that is done the first of the matchers is asked.
pub proof fn law_every_commit_is_matched(
    feeds: Seq<String>,
    denylist: Set<Seq<char>>,
    cursor: Option<i64>,
    inputs: Seq<SessionInput>,
    k: int,
    event: Event,
)
    requires
        session_follows(SessionState::initial(feeds, denylist, cursor), inputs),
        0 <= k < inputs.len(),
        inputs[k] == SessionInput::Parsed(Some(event)),
        event.kind@ == "commit"@,
    ensures
        ({
            let start = SessionState::initial(feeds, denylist, cursor);
            &&& last_asked(start, inputs.take(k + 1)) == SessionAction::EncodeEvent
            &&& k + 1 < inputs.len() ==> inputs[k + 1] is Encoded
            &&& k + 1 < inputs.len() && inputs[k + 1] == SessionInput::Encoded(true) ==> last_asked(
                start,
                inputs.take(k + 2),
            ) == if feeds.len() > 0 {
                SessionAction::RunMatcher(0)
            } else {
                SessionAction::Poll
            }
        }),
{
    let start = SessionState::initial(feeds, denylist, cursor);
    let read = inputs.take(k + 1);
    assert(read.last() == inputs[k]);
    if k + 1 < inputs.len() {
        let told = inputs.take(k + 2);
        assert(told.drop_last() =~= read);
        assert(told.last() == inputs[k + 1]);
        lemma_prefix_follows(start, inputs, k + 2);
        assert(session_after(start, read).stage is Encoding);
        assert(session_after(start, read).accepts(inputs[k + 1]));
        lemma_prefix_follows(start, inputs, k + 1);
        law_messages_are_counted(feeds, denylist, cursor, read);
    }
}

/// The beginning of a history is one.
proof fn lemma_prefix_follows(start: SessionState, inputs: Seq<SessionInput>, n: int)
    requires
        session_follows(start, inputs),
        0 <= n <= inputs.len(),
    ensures
        session_follows(start, inputs.take(n)),
    decreases inputs.len(),
{
    if n == inputs.len() {
        assert(inputs.take(n) =~= inputs);
    } else {
        assert(inputs.take(n) =~= inputs.drop_last().take(n));
        lemma_prefix_follows(start, inputs.drop_last(), n);
    }
}

/// What a session is told from the payload of a commit on: the event, that it
/// could be encoded, and the answers of the matchers, with every command taken.
pub open spec fn commit_told(
    state: SessionState,
    content: FrameContent,
    event: Event,
    answers: Seq<Option<Match>>,
) -> Seq<SessionInput> {
    let head = seq![
        SessionInput::Received(content),
        SessionInput::Parsed(Some(event)),
        SessionInput::Encoded(true),
    ];
    head + conversation(session_after(state, head), answers)
}

/// A commit whose repository is not denied, and which every matcher takes with
/// an AT-URI that is not denied, gives one entry for every feed, in the order of
/// the feeds. The session then waits for the next frame.
pub proof fn law_commit_is_sent_to_every_feed(
    state: SessionState,
    content: FrameContent,
    event: Event,
    answers: Seq<Option<Match>>,
)
    requires
        state.well_formed(),
        state.stage is Polling,
        state.messages_read < u64::MAX,
        state.feeds.len() <= usize::MAX,
        content is Bytes || content is Text,
        event.kind@ == "commit"@,
        answers.len() == state.feeds.len(),
        !state.denylist.contains(event.did@),
        forall|i: int|
            0 <= i < answers.len() ==> (#[trigger] answers[i] matches Some(Match(_, uri))
                && crate::aturi::has_did(uri@) && !state.denylist.contains(
                crate::aturi::did_of(uri@),
            )),
    ensures
        ({
            let told = commit_told(state, content, event, answers);
            let sent = sent_commands(state, told);
            &&& session_follows(state, told)
            &&& session_after(state, told).stage is Polling
            &&& sent.len() == state.feeds.len()
            &&& forall|i: int|
                0 <= i < sent.len() ==> (#[trigger] sent[i] matches WriteCommand::Content(entry, op)
                    && {
                    &&& entry.feed_id == state.feeds[i]
                    &&& answers[i] == Some(Match(op, entry.uri))
                    &&& entry.indexed_at == event.time_us
                    &&& entry.score == 1
                })
        }),
{
    let head = seq![
        SessionInput::Received(content),
        SessionInput::Parsed(Some(event)),
        SessionInput::Encoded(true),
    ];
    let served = lemma_commit_head(state, content, event);
    law_serving_is_a_history(served, answers);
    let talk = conversation(served, answers);
    lemma_conversation_begins_with_answer(served, answers);
    lemma_history_concat(state, head, talk);
    lemma_sent_concat(state, head, talk);
    let sent = sent_commands(state, head + talk);
    assert(sent =~= serve(served, answers).1);
    if state.feeds.len() > 0 {
        let held = EventInFlight { did: event.did, time_us: event.time_us };
        law_event_is_served(served, held, 0, answers);
        lemma_nothing_is_kept_out(served, held.did@, answers);
        assert(answers.take(answers.len() as int) =~= answers);
        lemma_entries_of_matches(state.feeds, event.time_us, 0, answers);
    }
}

/// What a commit leads to before the matchers are asked.
proof fn lemma_commit_head(state: SessionState, content: FrameContent, event: Event) -> (served:
    SessionState)
    requires
        state.well_formed(),
        state.stage is Polling,
        state.messages_read < u64::MAX,
        content is Bytes || content is Text,
        event.kind@ == "commit"@,
    ensures
        ({
            let head = seq![
                SessionInput::Received(content),
                SessionInput::Parsed(Some(event)),
                SessionInput::Encoded(true),
            ];
            &&& session_follows(state, head)
            &&& served == session_after(state, head)
            &&& served.well_formed()
            &&& served.feeds == state.feeds
            &&& served.denylist == state.denylist
            &&& served.stage == if state.feeds.len() > 0 {
                Stage::Matching(EventInFlight { did: event.did, time_us: event.time_us }, 0)
            } else {
                Stage::Polling
            }
            &&& sent_commands(state, head) == Seq::<WriteCommand>::empty()
        }),
{
    let received = SessionInput::Received(content);
    let parsed = SessionInput::Parsed(Some(event));
    let encoded = SessionInput::Encoded(true);
    let head = seq![received, parsed, encoded];
    let front = seq![received, parsed];
    lemma_single_step(state, received);
    assert(head.drop_last() =~= front);
    assert(front.drop_last() =~= seq![received]);
    assert(session_after(state, front) == state.after(received).after(parsed));
    assert(session_follows(state, front));
    assert(sent_commands(state, front) == Seq::<WriteCommand>::empty());
    session_after(state, head)
}

proof fn lemma_conversation_begins_with_answer(state: SessionState, answers: Seq<Option<Match>>)
    ensures
        conversation(state, answers).len() == 0 || !(conversation(state, answers)[0] is Sent),
{
}

proof fn lemma_nothing_is_kept_out(
    state: SessionState,
    did: Seq<char>,
    answers: Seq<Option<Match>>,
)
    requires
        !state.denylist.contains(did),
        forall|i: int|
            0 <= i < answers.len() ==> (#[trigger] answers[i] matches Some(Match(_, uri))
                && !state.denylist.contains(crate::aturi::did_of(uri@))),
    ensures
        answers_before_block(state, did, answers) == answers.len(),
    decreases answers.len(),
{
    if answers.len() > 0 {
        let rest = answers.drop_first();
        assert forall|i: int| 0 <= i < rest.len() implies (#[trigger] rest[i] matches Some(
            Match(_, uri),
        ) && !state.denylist.contains(crate::aturi::did_of(uri@))) by {
            assert(rest[i] == answers[i + 1]);
        }
        lemma_nothing_is_kept_out(state, did, rest);
    }
}

proof fn lemma_entries_of_matches(
    feeds: Seq<String>,
    time_us: i64,
    matcher: int,
    answers: Seq<Option<Match>>,
)
    requires
        forall|i: int| 0 <= i < answers.len() ==> #[trigger] answers[i] is Some,
    ensures
        entries(feeds, time_us, matcher, answers).len() == answers.len(),
        forall|i: int|
            0 <= i < answers.len() ==> (#[trigger] entries(
                feeds,
                time_us,
                matcher,
                answers,
            )[i] matches WriteCommand::Content(entry, op) && {
                &&& entry.feed_id == feeds[matcher + i]
                &&& answers[i] == Some(Match(op, entry.uri))
                &&& entry.indexed_at == time_us
                &&& entry.score == 1
            }),
    decreases answers.len(),
{
    if answers.len() > 0 {
        let rest = answers.drop_first();
        let all = entries(feeds, time_us, matcher, answers);
        let tail = entries(feeds, time_us, matcher + 1, rest);
        assert forall|i: int| 0 <= i < rest.len() implies #[trigger] rest[i] is Some by {
            assert(rest[i] == answers[i + 1]);
        }
        lemma_entries_of_matches(feeds, time_us, matcher + 1, rest);
        assert forall|i: int| 0 <= i < answers.len() implies (
        #[trigger] all[i] matches WriteCommand::Content(entry, op) && {
            &&& entry.feed_id == feeds[matcher + i]
            &&& answers[i] == Some(Match(op, entry.uri))
            &&& entry.indexed_at == time_us
            &&& entry.score == 1
        }) by {
            if i > 0 {
                assert(all[i] == tail[i - 1]);
                assert(rest[i - 1] == answers[i]);
            }
        }
    }
}

/// Whenever a checkpoint is due, and whenever the connection ends, the writer is
/// handed the position: the latest of the cursor that the connection resumed
/// at and the times of the events that were read, and 0 where there is none of
/// them.
pub proof fn law_position_is_handed_on_when_due(
    feeds: Seq<String>,
    denylist: Set<Seq<char>>,
    cursor: Option<i64>,
    inputs: Seq<SessionInput>,
) -> (position: i64)
    requires
        inputs.len() > 0,
        session_follows(SessionState::initial(feeds, denylist, cursor), inputs),
        inputs.last() is CheckpointDue || inputs.last() is Cancelled || inputs.last() is Closed,
    ensures
        last_asked(SessionState::initial(feeds, denylist, cursor), inputs) == SessionAction::Send(
            WriteCommand::Checkpoint(position),
        ),
        0 <= position,
        cursor matches Some(cursor) ==> cursor <= position,
        forall|k: int|
            0 <= k < inputs.len() ==> (#[trigger] inputs[k] matches SessionInput::Parsed(
                Some(event),
            ) ==> event.time_us <= position),
        position == 0 || cursor == Some(position) || exists|k: int|
            0 <= k < inputs.len() && (#[trigger] inputs[k] matches SessionInput::Parsed(Some(event))
                && event.time_us == position),
{
    let start = SessionState::initial(feeds, denylist, cursor);
    let position = session_after(start, inputs).cursor();
    law_checkpoint_keeps_progress(feeds, denylist, cursor, inputs, position);
    assert forall|k: int| 0 <= k < inputs.len() implies (
    #[trigger] inputs[k] matches SessionInput::Parsed(Some(event)) ==> event.time_us
        <= position) by {
        if let SessionInput::Parsed(Some(event)) = inputs[k] {
            law_cursor_covers_events(start, inputs, k, event);
        }
    }
    law_cursor_is_an_event_time(start, inputs);
    position
}

/// Once a due checkpoint is taken its interval starts anew, and the writer has
/// the position.
pub proof fn law_due_checkpoint_is_taken(
    feeds: Seq<String>,
    denylist: Set<Seq<char>>,
    cursor: Option<i64>,
    inputs: Seq<SessionInput>,
)
    requires
        session_follows(
            SessionState::initial(feeds, denylist, cursor),
            inputs.push(SessionInput::CheckpointDue),
        ),
    ensures
        ({
            let start = SessionState::initial(feeds, denylist, cursor);
            let due = inputs.push(SessionInput::CheckpointDue);
            let taken = due.push(SessionInput::Sent(true));
            &&& session_follows(start, taken)
            &&& last_asked(start, taken) == SessionAction::RearmCheckpoint
            &&& session_after(start, taken).stage is Polling
            &&& last_asked(start, due) matches SessionAction::Send(command) && sent_commands(
                start,
                taken,
            ) == sent_commands(start, due).push(command)
        }),
{
    let due = inputs.push(SessionInput::CheckpointDue);
    let taken = due.push(SessionInput::Sent(true));
    assert(due.drop_last() =~= inputs);
    assert(taken.drop_last() =~= due);
}

/// The number of frames since the last heartbeat.
pub open spec fn frames_since_heartbeat(inputs: Seq<SessionInput>) -> nat
    decreases inputs.len(),
{
    if inputs.len() == 0 || inputs.last() is HeartbeatDue {
        0
    } else {
        frames_since_heartbeat(inputs.drop_last()) + if inputs.last() is Received {
            1nat
        } else {
            0
        }
    }
}

/// A heartbeat reports how many frames came since the last one.
pub proof fn law_heartbeat_reports_frames(
    feeds: Seq<String>,
    denylist: Set<Seq<char>>,
    cursor: Option<i64>,
    inputs: Seq<SessionInput>,
)
    requires
        session_follows(SessionState::initial(feeds, denylist, cursor), inputs),
    ensures
        ({
            let start = SessionState::initial(feeds, denylist, cursor);
            &&& session_after(start, inputs).messages_since_heartbeat == frames_since_heartbeat(
                inputs,
            )
            &&& inputs.len() > 0 && inputs.last() is HeartbeatDue ==> last_asked(start, inputs) == (
            SessionAction::ReportHeartbeat {
                time_us: session_after(start, inputs).time_us,
                messages_since_last: frames_since_heartbeat(inputs.drop_last()) as u64,
            })
            &&& frames_since_heartbeat(inputs) <= u64::MAX
        }),
    decreases inputs.len(),
{
    if inputs.len() > 0 {
        law_heartbeat_reports_frames(feeds, denylist, cursor, inputs.drop_last());
        law_messages_are_counted(feeds, denylist, cursor, inputs.drop_last());
    }
}

} // verus!
