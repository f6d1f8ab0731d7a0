//! The error taxonomy of the pipeline.

use vstd::prelude::*;

verus! {

/// Every failure the pipeline can report for a server or an entry.
#[derive(Clone, Copy, PartialEq, Eq, Structural, Debug)]
pub enum FeedError {
    /// The termination signal was observed at a network checkpoint.
    Cancelled,
    /// Transport-level failure (connection, timeout, DNS).
    Network,
    /// The feed document or article markup is malformed beyond recovery.
    Parse,
    /// Policy forbids fetching the full article and the entry has no inline content.
    NoContent,
    /// The full article is required but the entry has no usable outbound link.
    NoLink,
    /// An image could not be fetched or its media type resolved; never fatal to an entry.
    Resource,
    /// A filesystem write or serialization failed.
    Persistence,
}

impl FeedError {
    /// A short human-readable name for the error, for logs and notifications.
    pub fn describe(&self) -> (r: &'static str)
        ensures
            r@ == self.describe_spec(),
    {
        match self {
            FeedError::Cancelled => "cancelled",
            FeedError::Network => "network failure",
            FeedError::Parse => "malformed document",
            FeedError::NoContent => "no content available",
            FeedError::NoLink => "no link to download",
            FeedError::Resource => "image failure",
            FeedError::Persistence => "persistence failure",
        }
    }

    pub open spec fn describe_spec(&self) -> Seq<char> {
        match self {
            FeedError::Cancelled => "cancelled"@,
            FeedError::Network => "network failure"@,
            FeedError::Parse => "malformed document"@,
            FeedError::NoContent => "no content available"@,
            FeedError::NoLink => "no link to download"@,
            FeedError::Resource => "image failure"@,
            FeedError::Persistence => "persistence failure"@,
        }
    }
}

} // verus!
