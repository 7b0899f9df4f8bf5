//! What holds of the writer task over everything it has been told.

use crate::writer::{
    FlushReason, Write, WriteCommand, WriterAction, WriterInput, WriterStage, WriterState,
    WRITE_BATCH_MAX_SIZE,
};
use vstd::prelude::*;

verus! {

/// The state of a writer task that has been told `inputs`, one after another.
pub open spec fn writer_after(inputs: Seq<WriterInput>) -> WriterState
    decreases inputs.len(),
{
    if inputs.len() == 0 {
        WriterState::initial()
    } else {
        writer_after(inputs.drop_last()).after(inputs.last())
    }
}

/// Whether each of the inputs came when the task was waiting for it.
pub open spec fn writer_follows(inputs: Seq<WriterInput>) -> bool
    decreases inputs.len(),
{
    inputs.len() == 0 || {
        &&& writer_follows(inputs.drop_last())
        &&& writer_after(inputs.drop_last()).accepts(inputs.last())
    }
}

/// The commands among the inputs.
pub open spec fn commands_in(inputs: Seq<WriterInput>) -> Seq<WriteCommand>
    decreases inputs.len(),
{
    if inputs.len() == 0 {
        Seq::empty()
    } else {
        let before = commands_in(inputs.drop_last());
        match inputs.last() {
            WriterInput::Command(command) => before.push(command),
            _ => before,
        }
    }
}

/// The entries that a row of commands carries.
pub open spec fn writes_in(commands: Seq<WriteCommand>) -> Seq<Write>
    decreases commands.len(),
{
    if commands.len() == 0 {
        Seq::empty()
    } else {
        let before = writes_in(commands.drop_last());
        match commands.last() {
            WriteCommand::Content(content, op) => before.push((content, op)),
            WriteCommand::Checkpoint(_) => before,
        }
    }
}

/// The entries that have reached the storage: the batches whose writing was
/// reported done, one behind the other.
pub open spec fn written(inputs: Seq<WriterInput>) -> Seq<Write>
    decreases inputs.len(),
{
    if inputs.len() == 0 {
        Seq::empty()
    } else {
        let before = written(inputs.drop_last());
        if inputs.last() == WriterInput::BatchWritten(true) {
            before + writer_after(inputs.drop_last()).buffer
        } else {
            before
        }
    }
}

/// The cursors that have reached the storage, in that order.
pub open spec fn persisted(inputs: Seq<WriterInput>) -> Seq<i64>
    decreases inputs.len(),
{
    if inputs.len() == 0 {
        Seq::empty()
    } else {
        let before = persisted(inputs.drop_last());
        match (writer_after(inputs.drop_last()).stage, inputs.last()) {
            (WriterStage::Persisting(time_us), WriterInput::CursorPersisted(true)) => before.push(
                time_us,
            ),
            _ => before,
        }
    }
}

/// The buffer of a writer task stays within a batch: no flush is larger than
/// `WRITE_BATCH_MAX_SIZE`, and a full buffer is flushed before the next
/// command is taken.
pub proof fn law_batches_are_bounded(inputs: Seq<WriterInput>)
    requires
        writer_follows(inputs),
    ensures
        writer_after(inputs).well_formed(),
    decreases inputs.len(),
{
    if inputs.len() > 0 {
        law_batches_are_bounded(inputs.drop_last());
    }
}

/// Nothing is lost, doubled or reordered: what has been written, followed by
/// what is still buffered, is what has been received.
pub proof fn law_no_write_is_lost(inputs: Seq<WriterInput>)
    requires
        writer_follows(inputs),
    ensures
        written(inputs) + writer_after(inputs).buffer == writes_in(commands_in(inputs)),
    decreases inputs.len(),
{
    if inputs.len() > 0 {
        let before = inputs.drop_last();
        law_no_write_is_lost(before);
        law_batches_are_bounded(inputs);
        match inputs.last() {
            WriterInput::Command(command) => {
                assert(commands_in(inputs).drop_last() =~= commands_in(before));
                assert(written(inputs) + writer_after(inputs).buffer =~= writes_in(
                    commands_in(inputs),
                ));
            },
            WriterInput::BatchWritten(true) => {
                assert(written(inputs) + writer_after(inputs).buffer =~= written(before)
                    + writer_after(before).buffer);
            },
            _ => {},
        }
    }
}

/// Where the task stands between a checkpoint command and its cursor, that
/// command is the last one it has taken.
proof fn lemma_checkpoint_is_last(inputs: Seq<WriterInput>, time_us: i64)
    requires
        writer_follows(inputs),
        writer_after(inputs).stage == WriterStage::Persisting(time_us) || writer_after(inputs).stage
            == WriterStage::Flushing(FlushReason::Checkpoint(time_us)),
    ensures
        commands_in(inputs).len() > 0,
        commands_in(inputs).last() == WriteCommand::Checkpoint(time_us),
    decreases inputs.len(),
{
    if inputs.len() > 0 {
        match inputs.last() {
            WriterInput::BatchWritten(_) => lemma_checkpoint_is_last(inputs.drop_last(), time_us),
            _ => {},
        }
    }
}

/// The cursor never advances past writes that are not yet durable: when the
/// task asks for a cursor to be persisted, that cursor is the one of the last
/// command it took, and every entry it received before has been written.
pub proof fn law_cursor_follows_writes(inputs: Seq<WriterInput>, time_us: i64)
    requires
        writer_follows(inputs),
        writer_after(inputs).stage == WriterStage::Persisting(time_us),
    ensures
        commands_in(inputs).len() > 0,
        commands_in(inputs).last() == WriteCommand::Checkpoint(time_us),
        written(inputs) == writes_in(commands_in(inputs)),
{
    lemma_checkpoint_is_last(inputs, time_us);
    law_no_write_is_lost(inputs);
    law_batches_are_bounded(inputs);
    assert(written(inputs) + writer_after(inputs).buffer =~= written(inputs));
}

/// The entries that were in the storage when the cursor at place `k` was
/// persisted.
pub open spec fn written_at_cursor(inputs: Seq<WriterInput>, k: int) -> Seq<Write>
    recommends
        0 <= k < persisted(inputs).len(),
    decreases inputs.len(),
{
    if inputs.len() == 0 {
        Seq::empty()
    } else if k < persisted(inputs.drop_last()).len() {
        written_at_cursor(inputs.drop_last(), k)
    } else {
        written(inputs.drop_last())
    }
}

/// Every persisted cursor was asked for at some point of the history, with the
/// cursors before it persisted: one where `law_cursor_follows_writes` speaks of
/// it.
pub proof fn law_persisted_was_asked_for(inputs: Seq<WriterInput>, k: int) -> (n: int)
    requires
        writer_follows(inputs),
        0 <= k < persisted(inputs).len(),
    ensures
        0 <= n <= inputs.len(),
        writer_follows(inputs.take(n)),
        writer_after(inputs.take(n)).stage == WriterStage::Persisting(persisted(inputs)[k]),
        persisted(inputs.take(n)) == persisted(inputs).take(k),
        written(inputs.take(n)) == written_at_cursor(inputs, k),
    decreases inputs.len(),
{
    let before = inputs.drop_last();
    if k < persisted(before).len() {
        let n = law_persisted_was_asked_for(before, k);
        assert(inputs.take(n) =~= before.take(n));
        assert(persisted(inputs).take(k) =~= persisted(before).take(k));
        n
    } else {
        assert(inputs.take(before.len() as int) =~= before);
        assert(persisted(inputs).take(k) =~= persisted(before));
        before.len() as int
    }
}

/// The cursors that a row of commands carries.
pub open spec fn cursors_in(commands: Seq<WriteCommand>) -> Seq<i64>
    decreases commands.len(),
{
    if commands.len() == 0 {
        Seq::empty()
    } else {
        let before = cursors_in(commands.drop_last());
        match commands.last() {
            WriteCommand::Content(_, _) => before,
            WriteCommand::Checkpoint(time_us) => before.push(time_us),
        }
    }
}

/// The cursor that a task has taken and not yet seen persisted.
pub open spec fn cursor_in_hand(stage: WriterStage) -> Seq<i64> {
    match stage {
        WriterStage::Flushing(FlushReason::Checkpoint(time_us))
        | WriterStage::Persisting(time_us) => seq![time_us],
        _ => Seq::empty(),
    }
}

/// Until a write fails no checkpoint is passed over: the persisted cursors,
/// followed by the one in hand, are the cursors that were received.
pub proof fn law_every_checkpoint_is_persisted(inputs: Seq<WriterInput>)
    requires
        writer_follows(inputs),
        !(writer_after(inputs).stage is Failed),
    ensures
        persisted(inputs) + cursor_in_hand(writer_after(inputs).stage) == cursors_in(
            commands_in(inputs),
        ),
    decreases inputs.len(),
{
    if inputs.len() > 0 {
        let before = inputs.drop_last();
        law_every_checkpoint_is_persisted(before);
        match inputs.last() {
            WriterInput::Command(command) => {
                assert(commands_in(inputs).drop_last() =~= commands_in(before));
            },
            _ => {},
        }
        assert(persisted(inputs) + cursor_in_hand(writer_after(inputs).stage) =~= cursors_in(
            commands_in(inputs),
        ));
    }
}

/// The persisted cursors are the first of those that were received, also where
/// a write failed.
pub proof fn law_persisted_in_order(inputs: Seq<WriterInput>)
    requires
        writer_follows(inputs),
    ensures
        persisted(inputs).is_prefix_of(cursors_in(commands_in(inputs))),
{
    if writer_after(inputs).stage is Failed {
        law_every_checkpoint_is_persisted(inputs.drop_last());
    } else {
        law_every_checkpoint_is_persisted(inputs);
    }
}

/// The entries that come before the cursor at place `k` in a row of commands.
pub open spec fn writes_before_cursor(commands: Seq<WriteCommand>, k: int) -> Seq<Write>
    recommends
        0 <= k < cursors_in(commands).len(),
    decreases commands.len(),
{
    if commands.len() == 0 {
        Seq::empty()
    } else if k < cursors_in(commands.drop_last()).len() {
        writes_before_cursor(commands.drop_last(), k)
    } else {
        writes_in(commands.drop_last())
    }
}

/// When a cursor is persisted, just the entries that were received before it
/// are in the storage: none is missing, and none has come in from behind it.
pub proof fn law_cursor_parts_the_writes(inputs: Seq<WriterInput>, k: int)
    requires
        writer_follows(inputs),
        0 <= k < persisted(inputs).len(),
    ensures
        written_at_cursor(inputs, k) == writes_before_cursor(commands_in(inputs), k),
    decreases inputs.len(),
{
    let before = inputs.drop_last();
    let commands = commands_in(before);
    if k < persisted(before).len() {
        law_cursor_parts_the_writes(before, k);
        law_persisted_in_order(before);
        if let WriterInput::Command(command) = inputs.last() {
            assert(commands_in(inputs).drop_last() =~= commands);
        }
    } else {
        let time_us = persisted(inputs)[k];
        law_cursor_follows_writes(before, time_us);
        law_every_checkpoint_is_persisted(before);
        assert(cursors_in(commands).len() == k + 1);
        assert(cursors_in(commands.drop_last()).len() == k);
    }
}

/// When batches are cut, by size, by the interval or by a checkpoint, changes
/// only where they are split: two histories with the same commands have the
/// same writes behind them and in hand, the same cursors too unless a write
/// failed, and at each cursor that both have persisted the same entries.
pub proof fn law_timing_only_splits_batches(inputs: Seq<WriterInput>, other: Seq<WriterInput>)
    requires
        writer_follows(inputs),
        writer_follows(other),
        commands_in(inputs) == commands_in(other),
    ensures
        written(inputs) + writer_after(inputs).buffer == written(other) + writer_after(other).buffer,
        !(writer_after(inputs).stage is Failed) && !(writer_after(other).stage is Failed) ==> {
            persisted(inputs) + cursor_in_hand(writer_after(inputs).stage) == persisted(other)
                + cursor_in_hand(writer_after(other).stage)
        },
        forall|k: int|
            0 <= k < persisted(inputs).len() && k < persisted(other).len() ==> {
                &&& persisted(inputs)[k] == persisted(other)[k]
                &&& #[trigger] written_at_cursor(inputs, k) == written_at_cursor(other, k)
            },
{
    law_no_write_is_lost(inputs);
    law_no_write_is_lost(other);
    if !(writer_after(inputs).stage is Failed) && !(writer_after(other).stage is Failed) {
        law_every_checkpoint_is_persisted(inputs);
        law_every_checkpoint_is_persisted(other);
    }
    law_persisted_in_order(inputs);
    law_persisted_in_order(other);
    assert forall|k: int| 0 <= k < persisted(inputs).len() && k < persisted(other).len() implies {
        &&& persisted(inputs)[k] == persisted(other)[k]
        &&& #[trigger] written_at_cursor(inputs, k) == written_at_cursor(other, k)
    } by {
        law_cursor_parts_the_writes(inputs, k);
        law_cursor_parts_the_writes(other, k);
        let cursors = cursors_in(commands_in(inputs));
        assert(persisted(inputs)[k] == cursors[k]);
        assert(persisted(other)[k] == cursors[k]);
    }
}

/// A task that ends without an error has written everything it received.
pub proof fn law_finish_leaves_nothing_buffered(inputs: Seq<WriterInput>)
    requires
        writer_follows(inputs),
        writer_after(inputs).stage is Finished,
    ensures
        written(inputs) == writes_in(commands_in(inputs)),
{
    law_no_write_is_lost(inputs);
    law_batches_are_bounded(inputs);
    assert(written(inputs) + writer_after(inputs).buffer =~= written(inputs));
}

/// A checkpoint is served by a batch write and, once that is done, by the
/// cursor; if the batch write fails the cursor is never asked for.
pub proof fn law_checkpoint_flushes_first(state: WriterState, time_us: i64)
    requires
        state.stage is Receiving,
    ensures
        ({
            let command = WriterInput::Command(WriteCommand::Checkpoint(time_us));
            let flushing = state.after(command);
            &&& state.asks(command) == WriterAction::WriteBatch
            &&& flushing.buffer == state.buffer
            &&& flushing.asks(WriterInput::BatchWritten(true)) == WriterAction::PersistCursor(
                time_us,
            )
            &&& flushing.asks(WriterInput::BatchWritten(false)) == WriterAction::Fail
        }),
{
}

/// The inputs that report on an action: what was waited for, or how the
/// storage took a write.
pub open spec fn reports_on(action: WriterAction, input: WriterInput) -> bool {
    match action {
        WriterAction::Receive | WriterAction::RearmAndReceive => input is Command
            || input is ChannelClosed || input is FlushDue,
        WriterAction::WriteBatch => input is BatchWritten,
        WriterAction::PersistCursor(_) => input is CursorPersisted,
        WriterAction::Finish | WriterAction::Fail => false,
    }
}

/// Doing what the task asks for and reporting on it is all that the task wants
/// of its surroundings: just the reports on its last action are accepted.
pub proof fn law_reports_are_accepted(state: WriterState, input: WriterInput, report: WriterInput)
    requires
        state.accepts(input),
    ensures
        state.after(input).accepts(report) <==> reports_on(state.asks(input), report),
{
}

/// Whichever comes first, a full buffer or the end of the interval, has the
/// buffer written.
pub proof fn law_size_and_interval_flush(state: WriterState, write: Write)
    requires
        state.stage is Receiving,
    ensures
        state.asks(WriterInput::FlushDue) == WriterAction::WriteBatch,
        ({
            let content = WriterInput::Command(WriteCommand::Content(write.0, write.1));
            state.asks(content) == if state.buffer.len() + 1 >= WRITE_BATCH_MAX_SIZE {
                WriterAction::WriteBatch
            } else {
                WriterAction::Receive
            }
        }),
{
}

/// An ended task takes no further input.
pub proof fn law_end_is_final(state: WriterState, input: WriterInput)
    requires
        state.stage is Finished || state.stage is Failed,
    ensures
        !state.accepts(input),
{
}

} // verus!
