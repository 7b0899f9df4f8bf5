//! The writer task: buffers matched entries and decides when a batch is
//! written and when the consumer cursor may be persisted.
//!
//! The task holds no handle to the database or to the channel. It is told what
//! happened (`WriterInput`) and answers what is to be done next
//! (`WriterAction`).

use crate::content::{FeedContent, MatchOperation};
use vstd::prelude::*;

verus! {

/// Buffered writes are flushed in a single transaction once the buffer reaches
/// this size or the flush interval elapses, whichever comes first. Batching
/// keeps the high-volume like stream from issuing one transaction per event.
pub const WRITE_BATCH_MAX_SIZE: usize = 1000;

/// Bound on the channel from the consumer to the writer. Large enough that the
/// consumer never blocks on a send in normal operation; if the database falls
/// far enough behind to fill it, the consumer waits rather than growing memory
/// without bound.
pub const WRITE_CHANNEL_CAPACITY: usize = 50_000;

/// The flush interval.
pub const FLUSH_INTERVAL_SECS: u64 = 1;

/// What the consumer's read loop hands to the writer. With every database
/// write on the writer's side, the consumer never blocks its websocket read
/// loop on a transaction.
#[derive(Debug, PartialEq, Eq)]
pub enum WriteCommand {
    /// A matched feed entry to upsert or update.
    Content(FeedContent, MatchOperation),
    /// Persist the consumer cursor. Buffered writes are flushed first so the
    /// cursor never advances past writes that are not yet durable.
    Checkpoint(i64),
}

/// Why a batch is being written, and so what follows it.
#[derive(Debug, Clone, Copy, PartialEq, Eq, Structural)]
pub enum FlushReason {
    /// The buffer is full.
    Full,
    /// The flush interval elapsed.
    Interval,
    /// A cursor is to be persisted afterwards.
    Checkpoint(i64),
    /// The consumer has stopped and dropped the sender.
    Shutdown,
}

/// What the writer task is waiting for.
#[derive(Debug, Clone, Copy, PartialEq, Eq, Structural)]
pub enum WriterStage {
    /// The next command, or the flush interval.
    Receiving,
    /// The outcome of a batch write.
    Flushing(FlushReason),
    /// The outcome of persisting a cursor.
    Persisting(i64),
    /// Nothing more: it ended after a last flush.
    Finished,
    /// Nothing more: the storage refused a write.
    Failed,
}

/// What the writer task is told.
#[derive(Debug, PartialEq, Eq)]
pub enum WriterInput {
    Command(WriteCommand),
    ChannelClosed,
    FlushDue,
    /// Whether the batch that was asked for has been written.
    BatchWritten(bool),
    /// Whether the cursor that was asked for has been persisted.
    CursorPersisted(bool),
}

/// What is to be done next.
#[derive(Debug, Clone, Copy, PartialEq, Eq, Structural)]
pub enum WriterAction {
    /// Wait for the next command or for the flush interval.
    Receive,
    /// Start the flush interval anew, then wait as for `Receive`.
    RearmAndReceive,
    /// Write the buffered entries in one transaction.
    WriteBatch,
    /// Persist the cursor.
    PersistCursor(i64),
    /// End the task.
    Finish,
    /// End the task with the error that the storage gave.
    Fail,
}

/// A write that waits in the buffer or has reached the storage.
pub type Write = (FeedContent, MatchOperation);

/// The state of the writer task.
#[verifier::ext_equal]
pub struct WriterState {
    pub buffer: Seq<Write>,
    pub stage: WriterStage,
}

impl WriterState {
    /// The state before the first command.
    pub open spec fn initial() -> WriterState {
        WriterState { buffer: Seq::empty(), stage: WriterStage::Receiving }
    }

    /// Whether the task can be told this now.
    pub open spec fn accepts(self, input: WriterInput) -> bool {
        match input {
            WriterInput::Command(_) | WriterInput::ChannelClosed | WriterInput::FlushDue =>
                self.stage is Receiving,
            WriterInput::BatchWritten(_) => self.stage is Flushing,
            WriterInput::CursorPersisted(_) => self.stage is Persisting,
        }
    }

    /// The buffer never outgrows a batch, has room while commands are taken,
    /// and is empty once a cursor is being persisted or the task has ended.
    pub open spec fn well_formed(self) -> bool {
        &&& self.buffer.len() <= WRITE_BATCH_MAX_SIZE
        &&& self.stage is Receiving ==> self.buffer.len() < WRITE_BATCH_MAX_SIZE
        &&& self.stage is Persisting || self.stage is Finished ==> self.buffer.len() == 0
    }

    /// The state after the task has been told `input`.
    pub open spec fn after(self, input: WriterInput) -> WriterState {
        match input {
            WriterInput::Command(WriteCommand::Content(content, op)) => {
                let buffer = self.buffer.push((content, op));
                if buffer.len() >= WRITE_BATCH_MAX_SIZE {
                    WriterState { buffer, stage: WriterStage::Flushing(FlushReason::Full) }
                } else {
                    WriterState { buffer, stage: WriterStage::Receiving }
                }
            },
            WriterInput::Command(WriteCommand::Checkpoint(time_us)) => WriterState {
                stage: WriterStage::Flushing(FlushReason::Checkpoint(time_us)),
                ..self
            },
            WriterInput::ChannelClosed => WriterState {
                stage: WriterStage::Flushing(FlushReason::Shutdown),
                ..self
            },
            WriterInput::FlushDue => WriterState {
                stage: WriterStage::Flushing(FlushReason::Interval),
                ..self
            },
            WriterInput::BatchWritten(true) => WriterState {
                buffer: Seq::empty(),
                stage: match self.stage {
                    WriterStage::Flushing(FlushReason::Checkpoint(time_us)) =>
                        WriterStage::Persisting(time_us),
                    WriterStage::Flushing(FlushReason::Shutdown) => WriterStage::Finished,
                    _ => WriterStage::Receiving,
                },
            },
            WriterInput::CursorPersisted(true) => WriterState {
                stage: WriterStage::Receiving,
                ..self
            },
            WriterInput::BatchWritten(false) | WriterInput::CursorPersisted(false) => WriterState {
                stage: WriterStage::Failed,
                ..self
            },
        }
    }

    /// What the task asks for when it comes into this state on `input`.
    pub open spec fn asks(self, input: WriterInput) -> WriterAction {
        match self.after(input).stage {
            WriterStage::Receiving => if self.stage == WriterStage::Flushing(
                FlushReason::Interval,
            ) {
                WriterAction::RearmAndReceive
            } else {
                WriterAction::Receive
            },
            WriterStage::Flushing(_) => WriterAction::WriteBatch,
            WriterStage::Persisting(time_us) => WriterAction::PersistCursor(time_us),
            WriterStage::Finished => WriterAction::Finish,
            WriterStage::Failed => WriterAction::Fail,
        }
    }
}

/// The writer task of one event source.
pub struct WriterTask {
    source: String,
    buffer: Vec<(FeedContent, MatchOperation)>,
    stage: WriterStage,
}

impl View for WriterTask {
    type V = WriterState;

    closed spec fn view(&self) -> WriterState {
        WriterState { buffer: self.buffer@, stage: self.stage }
    }
}

impl WriterTask {
    /// The event source whose cursor the task persists.
    pub closed spec fn spec_source(&self) -> Seq<char> {
        self.source@
    }

    /// A task with nothing buffered, waiting for its first command.
    pub fn new(source: String) -> (task: Self)
        ensures
            task.spec_source() == source@,
            task@ == WriterState::initial(),
            task@.well_formed(),
    {
        WriterTask { source, buffer: Vec::new(), stage: WriterStage::Receiving }
    }

    /// The name under which the cursor is persisted.
    pub fn source(&self) -> (source: &str)
        ensures
            source@ == self.spec_source(),
    {
        self.source.as_str()
    }

    /// The entries that the next batch write is to hold, in the order in which
    /// they were received.
    pub fn batch(&self) -> (batch: &Vec<(FeedContent, MatchOperation)>)
        ensures
            batch@ == self@.buffer,
    {
        &self.buffer
    }

    /// What the task is waiting for.
    pub fn stage(&self) -> (stage: WriterStage)
        ensures
            stage == self@.stage,
    {
        self.stage
    }

    /// Tells the task what happened; answers what is to be done next.
    pub fn step(&mut self, input: WriterInput) -> (action: WriterAction)
        requires
            old(self)@.accepts(input),
        ensures
            final(self)@ == old(self)@.after(input),
            action == old(self)@.asks(input),
            final(self).spec_source() == old(self).spec_source(),
            old(self)@.well_formed() ==> final(self)@.well_formed(),
    {
        match input {
            WriterInput::Command(WriteCommand::Content(feed_content, op)) => {
                self.buffer.push((feed_content, op));
                if self.buffer.len() >= WRITE_BATCH_MAX_SIZE {
                    self.stage = WriterStage::Flushing(FlushReason::Full);
                    WriterAction::WriteBatch
                } else {
                    WriterAction::Receive
                }
            },
            WriterInput::Command(WriteCommand::Checkpoint(time_us)) => {
                // Flush before advancing the persisted cursor so the cursor
                // never moves past buffered writes.
                self.stage = WriterStage::Flushing(FlushReason::Checkpoint(time_us));
                WriterAction::WriteBatch
            },
            WriterInput::ChannelClosed => {
                // Flush whatever is still buffered before shutting down.
                self.stage = WriterStage::Flushing(FlushReason::Shutdown);
                WriterAction::WriteBatch
            },
            WriterInput::FlushDue => {
                self.stage = WriterStage::Flushing(FlushReason::Interval);
                WriterAction::WriteBatch
            },
            WriterInput::BatchWritten(true) => {
                self.buffer.clear();
                match self.stage {
                    WriterStage::Flushing(FlushReason::Checkpoint(time_us)) => {
                        self.stage = WriterStage::Persisting(time_us);
                        WriterAction::PersistCursor(time_us)
                    },
                    WriterStage::Flushing(FlushReason::Shutdown) => {
                        self.stage = WriterStage::Finished;
                        WriterAction::Finish
                    },
                    WriterStage::Flushing(FlushReason::Interval) => {
                        self.stage = WriterStage::Receiving;
                        WriterAction::RearmAndReceive
                    },
                    _ => {
                        self.stage = WriterStage::Receiving;
                        WriterAction::Receive
                    },
                }
            },
            WriterInput::CursorPersisted(true) => {
                self.stage = WriterStage::Receiving;
                WriterAction::Receive
            },
            WriterInput::BatchWritten(false) | WriterInput::CursorPersisted(false) => {
                self.stage = WriterStage::Failed;
                WriterAction::Fail
            },
        }
    }
}

} // verus!
