//! The model of the shared network client: a counting permit pool bounding
//! concurrent requests, and the cooperative cancellation signal checked at
//! three checkpoints of every fetch — after acquiring a permit, after the
//! response headers, and after the body. The transport itself lives outside
//! the library; the decisions here govern it.

use vstd::prelude::*;

use crate::error::FeedError;

verus! {

/// The largest permit count the pool accepts; a configured concurrency
/// above it is clamped.
pub const PERMIT_CEILING: u64 = 0x1fff_ffff_ffff_ffff;

/// The pool-and-signal state of the client. Every clone of the real client
/// shares one such state.
pub struct NetClient {
    pub available: u64,
    pub max_permits: u64,
    pub cancelled: bool,
}

impl NetClient {
    pub open spec fn wf(&self) -> bool {
        self.available <= self.max_permits && self.max_permits <= PERMIT_CEILING
    }

    /// A fresh client: the configured concurrency, clamped to the ceiling,
    /// all permits free, the signal clear.
    pub fn new(concurrent_requests: u64) -> (c: NetClient)
        ensures
            c.wf(),
            c.max_permits == if concurrent_requests <= PERMIT_CEILING {
                concurrent_requests
            } else {
                PERMIT_CEILING
            },
            c.available == c.max_permits,
            !c.cancelled,
    {
        let m = if concurrent_requests <= PERMIT_CEILING {
            concurrent_requests
        } else {
            PERMIT_CEILING
        };
        NetClient { available: m, max_permits: m, cancelled: false }
    }

    /// The termination signal: set once by the external shutdown trigger,
    /// never cleared during a run.
    pub fn set_cancelled(&mut self)
        ensures
            final(self).cancelled,
            final(self).available == old(self).available,
            final(self).max_permits == old(self).max_permits,
    {
        self.cancelled = true;
    }
}

/// What one fetch returns, given the cancellation flag as observed at the
/// three checkpoints and whether the two transport steps succeeded: the
/// first checkpoint that sees the signal cancels; a transport failure is a
/// network error; otherwise the body is returned.
pub open spec fn fetch_outcome_spec(
    c1: bool,
    send_ok: bool,
    c2: bool,
    read_ok: bool,
    c3: bool,
) -> Result<(), FeedError> {
    if c1 {
        Err(FeedError::Cancelled)
    } else if !send_ok {
        Err(FeedError::Network)
    } else if c2 {
        Err(FeedError::Cancelled)
    } else if !read_ok {
        Err(FeedError::Network)
    } else if c3 {
        Err(FeedError::Cancelled)
    } else {
        Ok(())
    }
}

/// The decision at each of the three cancellation checkpoints: observing
/// the signal fails the fetch with `Cancelled`, and nothing else does. The
/// transport client consults this at every checkpoint; `run_fetch` below is
/// built from it.
pub fn checkpoint_decision(cancelled: bool) -> (r: Result<(), FeedError>)
    ensures
        r == if cancelled {
            Err::<(), FeedError>(FeedError::Cancelled)
        } else {
            Ok::<(), FeedError>(())
        },
{
    if cancelled {
        Err(FeedError::Cancelled)
    } else {
        Ok(())
    }
}

impl NetClient {
    /// One fetch attempt against the model. A permit is taken before the
    /// first checkpoint and is back in the pool on every path out,
    /// successful, failed or cancelled — the pool never leaks a permit. The
    /// observations are monotone: the signal, once seen, stays seen.
    pub fn run_fetch(
        &mut self,
        c1: bool,
        send_ok: bool,
        c2: bool,
        read_ok: bool,
        c3: bool,
    ) -> (r: Result<(), FeedError>)
        requires
            old(self).wf(),
            old(self).available > 0,
            old(self).cancelled ==> c1,
            c1 ==> c2,
            c2 ==> c3,
        ensures
            final(self).wf(),
            final(self).available == old(self).available,
            final(self).max_permits == old(self).max_permits,
            final(self).cancelled == old(self).cancelled,
            r == fetch_outcome_spec(c1, send_ok, c2, read_ok, c3),
    {
        self.available = self.available - 1;
        let result: Result<(), FeedError> = match checkpoint_decision(c1) {
            Err(e) => Err(e),
            Ok(()) => if !send_ok {
                Err(FeedError::Network)
            } else {
                match checkpoint_decision(c2) {
                    Err(e) => Err(e),
                    Ok(()) => if !read_ok {
                        Err(FeedError::Network)
                    } else {
                        checkpoint_decision(c3)
                    },
                }
            },
        };
        self.available = self.available + 1;
        result
    }
}

/// Scenario law: the signal arrives after the permit was acquired but
/// before the headers — the first checkpoint was clear, the second sees the
/// signal. The fetch is cancelled, no body is returned, and whatever record
/// the state store held for the entry survives its failed production.
pub proof fn law_cancel_before_headers(
    send_ok: bool,
    read_ok: bool,
    c3: bool,
    prev: Map<Seq<u8>, crate::store::RecordV>,
    new: Map<Seq<u8>, crate::store::RecordV>,
    id: Seq<u8>,
    updated: Option<int>,
    now: int,
)
    requires
        c3,
        !new.contains_key(id),
    ensures
        fetch_outcome_spec(false, send_ok, true, read_ok, c3) == Err::<(), FeedError>(
            FeedError::Cancelled,
        ) || fetch_outcome_spec(false, send_ok, true, read_ok, c3) == Err::<(), FeedError>(
            FeedError::Network,
        ),
        prev.contains_key(id) ==> crate::store::entry_step(
            prev,
            new,
            id,
            updated,
            Err(FeedError::Cancelled),
            now,
        )[id] == prev[id],
        !prev.contains_key(id) ==> !crate::store::entry_step(
            prev,
            new,
            id,
            updated,
            Err(FeedError::Cancelled),
            now,
        ).contains_key(id),
{
    crate::store::law_failed_produce_preserves_prior(
        prev,
        new,
        id,
        updated,
        FeedError::Cancelled,
        now,
    );
}

} // verus!
