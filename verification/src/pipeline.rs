//! What holds of the consumer and the writer together, with the channel
//! between them handing commands on in order.

use crate::consumer::{SessionAction, SessionInput, SessionState};
use crate::writer::{Write, WriteCommand, WriterInput, WriterStage};
use vstd::prelude::*;

verus! {

/// Whether the commands that the writer has taken out of the channel are the
/// first of those that the session has put in.
pub open spec fn channel_in_order(
    start: SessionState,
    session: Seq<SessionInput>,
    writer: Seq<WriterInput>,
) -> bool {
    crate::durability::commands_in(writer).is_prefix_of(
        crate::history::sent_commands(start, session),
    )
}

/// Whether the first `n` things that a session was told end at the point where
/// it asks for the cursor `time_us`, between two events, and everything that
/// it had sent by then is `writes`.
pub open spec fn covers(
    start: SessionState,
    session: Seq<SessionInput>,
    n: int,
    time_us: i64,
    writes: Seq<Write>,
) -> bool {
    let seen = session.take(n);
    &&& 0 < n <= session.len()
    &&& crate::history::last_asked(start, seen) == SessionAction::Send(
        WriteCommand::Checkpoint(time_us),
    )
    &&& crate::history::session_after(start, seen).cursor() == time_us
    &&& crate::history::event_in_flight(crate::history::session_after(start, seen).stage) is None
    &&& crate::durability::writes_in(crate::history::sent_commands(start, seen)) == writes
    &&& forall|k: int|
        0 <= k < n ==> (#[trigger] session[k] matches SessionInput::Parsed(Some(event))
            ==> event.time_us <= time_us)
}

/// Every command that the writer took was asked for at some point, with what
/// was sent before it.
proof fn lemma_sent_was_asked_for(start: SessionState, inputs: Seq<SessionInput>, k: int) -> (n:
    int)
    requires
        crate::history::session_follows(start, inputs),
        !(start.stage is Checkpointing || start.stage is Delivering || start.stage is Closing),
        0 <= k < crate::history::sent_commands(start, inputs).len(),
    ensures
        0 < n <= inputs.len(),
        crate::history::session_follows(start, inputs.take(n)),
        crate::history::last_asked(start, inputs.take(n)) == SessionAction::Send(
            crate::history::sent_commands(start, inputs)[k],
        ),
        crate::history::sent_commands(start, inputs.take(n)) == crate::history::sent_commands(
            start,
            inputs,
        ).take(k),
    decreases inputs.len(),
{
    let before = inputs.drop_last();
    let sent = crate::history::sent_commands(start, inputs);
    let sent_before = crate::history::sent_commands(start, before);
    if k < sent_before.len() {
        let n = lemma_sent_was_asked_for(start, before, k);
        assert(inputs.take(n) =~= before.take(n));
        assert(sent.take(k) =~= sent_before.take(k));
        n
    } else {
        assert(before.len() > 0);
        assert(inputs.take(before.len() as int) =~= before);
        assert(sent.take(k) =~= sent_before);
        before.len() as int
    }
}

/// A checkpoint adds nothing to the writes of the commands before it, and its
/// cursor to theirs.
proof fn lemma_checkpoint_writes_nothing(commands: Seq<WriteCommand>, k: int, time_us: i64)
    requires
        0 <= k < commands.len(),
        commands[k] == WriteCommand::Checkpoint(time_us),
    ensures
        crate::durability::writes_in(commands.take(k + 1)) == crate::durability::writes_in(
            commands.take(k),
        ),
        crate::durability::cursors_in(commands.take(k + 1)) == crate::durability::cursors_in(
            commands.take(k),
        ).push(time_us),
{
    assert(commands.take(k + 1).drop_last() =~= commands.take(k));
    assert(commands.take(k + 1).last() == commands[k]);
}

/// When the writer asks for a cursor to be persisted, there is a point of the
/// session, between two events, at which it had seen no event later than that
/// cursor, and whatever it had sent by then has been written. It is the point
/// of that very checkpoint: the ones that it had sent by then are the cursors
/// that have been persisted.
pub proof fn law_cursor_covers_only_durable_events(
    feeds: Seq<String>,
    denylist: Set<Seq<char>>,
    cursor: Option<i64>,
    session: Seq<SessionInput>,
    writer: Seq<WriterInput>,
    time_us: i64,
) -> (n: int)
    requires
        crate::history::session_follows(SessionState::initial(feeds, denylist, cursor), session),
        crate::durability::writer_follows(writer),
        channel_in_order(SessionState::initial(feeds, denylist, cursor), session, writer),
        crate::durability::writer_after(writer).stage == WriterStage::Persisting(time_us),
    ensures
        covers(
            SessionState::initial(feeds, denylist, cursor),
            session,
            n,
            time_us,
            crate::durability::written(writer),
        ),
        crate::durability::cursors_in(
            crate::history::sent_commands(
                SessionState::initial(feeds, denylist, cursor),
                session.take(n),
            ),
        ) == crate::durability::persisted(writer),
{
    let start = SessionState::initial(feeds, denylist, cursor);
    let taken = crate::durability::commands_in(writer);
    let sent = crate::history::sent_commands(start, session);
    crate::durability::law_cursor_follows_writes(writer, time_us);
    let k = taken.len() - 1;
    assert(sent[k] == taken[k]);
    assert(taken =~= sent.take(k + 1));
    lemma_checkpoint_writes_nothing(sent, k, time_us);
    crate::durability::law_every_checkpoint_is_persisted(writer);
    assert(crate::durability::cursors_in(sent.take(k)) =~= crate::durability::persisted(writer)) by {
        let cursors = crate::durability::cursors_in(taken);
        assert(cursors.drop_last() =~= crate::durability::cursors_in(sent.take(k)));
        assert(cursors.drop_last() =~= crate::durability::persisted(writer));
    }
    let n = lemma_sent_was_asked_for(start, session, k);
    let seen = session.take(n);
    crate::history::law_checkpoint_carries_cursor(start, seen, time_us);
    assert forall|i: int| 0 <= i < n implies (#[trigger] session[i] matches SessionInput::Parsed(
        Some(event),
    ) ==> event.time_us <= time_us) by {
        if let SessionInput::Parsed(Some(event)) = session[i] {
            assert(seen[i] == session[i]);
            crate::history::law_cursor_covers_events(start, seen, i, event);
        }
    }
    n
}

/// What has been written stays written.
proof fn lemma_written_grows(writer: Seq<WriterInput>, m: int)
    requires
        0 <= m <= writer.len(),
    ensures
        crate::durability::written(writer.take(m)).is_prefix_of(
            crate::durability::written(writer),
        ),
        crate::durability::commands_in(writer.take(m)).is_prefix_of(
            crate::durability::commands_in(writer),
        ),
    decreases writer.len(),
{
    if m == writer.len() {
        assert(writer.take(m) =~= writer);
    } else {
        assert(writer.take(m) =~= writer.drop_last().take(m));
        lemma_written_grows(writer.drop_last(), m);
    }
}

/// For every cursor that the writer has persisted there is a point of the
/// session, between two events, at which it had seen no event later than that
/// cursor, and whatever it had sent by then was in the storage when the cursor
/// was persisted, and is there still. It is the point of that very checkpoint:
/// the ones that it had sent by then are the cursors persisted before.
pub proof fn law_persisted_cursor_is_covered(
    feeds: Seq<String>,
    denylist: Set<Seq<char>>,
    cursor: Option<i64>,
    session: Seq<SessionInput>,
    writer: Seq<WriterInput>,
    k: int,
) -> (n: int)
    requires
        crate::history::session_follows(SessionState::initial(feeds, denylist, cursor), session),
        crate::durability::writer_follows(writer),
        channel_in_order(SessionState::initial(feeds, denylist, cursor), session, writer),
        0 <= k < crate::durability::persisted(writer).len(),
    ensures
        covers(
            SessionState::initial(feeds, denylist, cursor),
            session,
            n,
            crate::durability::persisted(writer)[k],
            crate::durability::written_at_cursor(writer, k),
        ),
        crate::durability::cursors_in(
            crate::history::sent_commands(
                SessionState::initial(feeds, denylist, cursor),
                session.take(n),
            ),
        ) == crate::durability::persisted(writer).take(k),
        crate::durability::written_at_cursor(writer, k).is_prefix_of(
            crate::durability::written(writer),
        ),
{
    let time_us = crate::durability::persisted(writer)[k];
    let m = crate::durability::law_persisted_was_asked_for(writer, k);
    let told = writer.take(m);
    lemma_written_grows(writer, m);
    assert(channel_in_order(SessionState::initial(feeds, denylist, cursor), session, told));
    law_cursor_covers_only_durable_events(feeds, denylist, cursor, session, told, time_us)
}

/// The cursors of the first commands are the first cursors of the commands.
proof fn lemma_cursors_of_prefix(commands: Seq<WriteCommand>, m: int)
    requires
        0 <= m <= commands.len(),
    ensures
        crate::durability::cursors_in(commands.take(m)).is_prefix_of(
            crate::durability::cursors_in(commands),
        ),
    decreases commands.len(),
{
    if m == commands.len() {
        assert(commands.take(m) =~= commands);
    } else {
        assert(commands.take(m) =~= commands.drop_last().take(m));
        lemma_cursors_of_prefix(commands.drop_last(), m);
    }
}

/// The checkpoints of a session lie between the cursor it began with and the
/// one it has, and never fall.
proof fn lemma_sent_cursors_never_fall(start: SessionState, session: Seq<SessionInput>)
    requires
        crate::history::session_follows(start, session),
        !(start.stage is Checkpointing || start.stage is Delivering || start.stage is Closing),
    ensures
        ({
            let cursors = crate::durability::cursors_in(
                crate::history::sent_commands(start, session),
            );
            &&& start.cursor() <= crate::history::session_after(start, session).cursor()
            &&& forall|i: int|
                0 <= i < cursors.len() ==> start.cursor() <= #[trigger] cursors[i]
                    <= crate::history::session_after(start, session).cursor()
            &&& forall|i: int, j: int| 0 <= i <= j < cursors.len() ==> cursors[i] <= cursors[j]
        }),
    decreases session.len(),
{
    if session.len() > 0 {
        let before = session.drop_last();
        lemma_sent_cursors_never_fall(start, before);
        let sent = crate::history::sent_commands(start, session);
        let sent_before = crate::history::sent_commands(start, before);
        let cursors = crate::durability::cursors_in(sent);
        let cursors_before = crate::durability::cursors_in(sent_before);
        match (crate::history::last_asked(start, before), session.last()) {
            (SessionAction::Send(command), SessionInput::Sent(true)) => {
                assert(before.len() > 0);
                assert(sent.drop_last() =~= sent_before);
                assert(sent.last() == command);
                if let WriteCommand::Checkpoint(time_us) = command {
                    crate::history::law_checkpoint_carries_cursor(start, before, time_us);
                    assert(cursors == cursors_before.push(time_us));
                } else {
                    assert(cursors == cursors_before);
                }
            },
            _ => {
                assert(cursors == cursors_before);
            },
        }
    }
}

/// Progress survives a restart: no cursor that the writer persists is earlier
/// than the one that the connection resumed at, if there was one, or than 0, or
/// than one that was persisted before it.
pub proof fn law_stored_cursor_never_falls(
    feeds: Seq<String>,
    denylist: Set<Seq<char>>,
    cursor: Option<i64>,
    session: Seq<SessionInput>,
    writer: Seq<WriterInput>,
    i: int,
    j: int,
)
    requires
        crate::history::session_follows(SessionState::initial(feeds, denylist, cursor), session),
        crate::durability::writer_follows(writer),
        channel_in_order(SessionState::initial(feeds, denylist, cursor), session, writer),
        0 <= i <= j < crate::durability::persisted(writer).len(),
    ensures
        SessionState::initial(feeds, denylist, cursor).cursor() <= crate::durability::persisted(
            writer,
        )[i],
        cursor matches Some(resumed_at) ==> resumed_at <= crate::durability::persisted(writer)[i],
        0 <= crate::durability::persisted(writer)[i],
        crate::durability::persisted(writer)[i] <= crate::durability::persisted(writer)[j],
{
    let start = SessionState::initial(feeds, denylist, cursor);
    let taken = crate::durability::commands_in(writer);
    let sent = crate::history::sent_commands(start, session);
    crate::durability::law_persisted_in_order(writer);
    lemma_sent_cursors_never_fall(start, session);
    assert(taken =~= sent.take(taken.len() as int));
    lemma_cursors_of_prefix(sent, taken.len() as int);
    let stored = crate::durability::persisted(writer);
    let cursors = crate::durability::cursors_in(sent);
    assert(stored[i] == cursors[i]);
    assert(stored[j] == cursors[j]);
}

/// After a clean end nothing is missing: where the session ended with its last
/// checkpoint taken, and the writer took every command and ended without an
/// error, every entry that was sent is in the storage, and the last cursor
/// there is the one of the session.
pub proof fn law_clean_end_leaves_nothing_behind(
    feeds: Seq<String>,
    denylist: Set<Seq<char>>,
    cursor: Option<i64>,
    session: Seq<SessionInput>,
    writer: Seq<WriterInput>,
)
    requires
        crate::history::session_follows(SessionState::initial(feeds, denylist, cursor), session),
        crate::history::session_after(
            SessionState::initial(feeds, denylist, cursor),
            session,
        ).stage is Finished,
        session.last() == SessionInput::Sent(true),
        crate::durability::writer_follows(writer),
        crate::durability::writer_after(writer).stage is Finished,
        crate::durability::commands_in(writer) == crate::history::sent_commands(
            SessionState::initial(feeds, denylist, cursor),
            session,
        ),
    ensures
        ({
            let start = SessionState::initial(feeds, denylist, cursor);
            &&& crate::durability::written(writer) == crate::durability::writes_in(
                crate::history::sent_commands(start, session),
            )
            &&& crate::durability::persisted(writer).len() > 0
            &&& crate::durability::persisted(writer).last() == crate::history::session_after(
                start,
                session,
            ).cursor()
        }),
{
    let start = SessionState::initial(feeds, denylist, cursor);
    let sent = crate::history::sent_commands(start, session);
    let time_us = crate::history::session_after(start, session).cursor();
    crate::durability::law_finish_leaves_nothing_buffered(writer);
    crate::durability::law_every_checkpoint_is_persisted(writer);
    crate::history::law_end_asks_for_checkpoint(feeds, denylist, cursor, session);
    assert(sent.last() == WriteCommand::Checkpoint(time_us));
    let cursors = crate::durability::cursors_in(sent);
    assert(cursors.last() == time_us);
    assert(crate::durability::persisted(writer) =~= cursors);
}

} // verus!
