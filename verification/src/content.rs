//! Feed entries, and what a matcher says of an event.

use vstd::prelude::*;

verus! {

/// What a matched entry asks of the feed storage.
#[derive(Debug, Clone, Copy, PartialEq, Eq, Structural)]
pub enum MatchOperation {
    /// Insert the entry, or replace the one that is there.
    Upsert,
    /// Change the entry where it is already there.
    Update,
}

/// An event that a matcher takes into its feed: the operation, and the AT-URI
/// of the entry.
#[derive(Debug, PartialEq, Eq)]
pub struct Match(pub MatchOperation, pub String);

/// One entry of a feed, as it is stored.
#[derive(Debug, PartialEq, Eq)]
pub struct FeedContent {
    pub feed_id: String,
    pub uri: String,
    pub indexed_at: i64,
    pub score: i32,
}

} // verus!
