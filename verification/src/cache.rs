//! The key-set cache's decision logic. A single consumer owns a
//! `CacheState`; for each queued request it asks `needs_refresh`, fetches
//! only when told to, and records every outcome — success or failure — with
//! `record_refresh`. Freshness, retry-after-failure and single-flight are
//! stated below as laws over this state.

use vstd::prelude::*;

verus! {

/// The staleness window: a successful key set older than this is refreshed.
pub const STALENESS_SECS: u64 = 3600;

/// The outcome of the most recent fetch: a key set, or a cached failure.
pub enum KeySetOutcome {
    Available(alcoholic_jwt::JWKS),
    Unavailable,
}

/// The cached key set and the time it was last refreshed, in seconds.
pub struct CacheState {
    pub outcome: KeySetOutcome,
    pub last_refresh: u64,
}

impl CacheState {
    /// A stored success that is still within the staleness window.
    pub open spec fn is_fresh(&self, now: u64) -> bool {
        &&& self.outcome is Available
        &&& now - self.last_refresh <= STALENESS_SECS
    }

    pub fn new(outcome: KeySetOutcome, now: u64) -> (s: Self)
        ensures
            s.outcome == outcome,
            s.last_refresh == now,
    {
        CacheState { outcome, last_refresh: now }
    }

    /// Whether serving a request at `now` requires a fetch first: the stored
    /// outcome is a failure, or it has outlived the staleness window.
    pub fn needs_refresh(&self, now: u64) -> (r: bool)
        ensures
            r == !self.is_fresh(now),
    {
        match &self.outcome {
            KeySetOutcome::Unavailable => true,
            KeySetOutcome::Available(_) => now > self.last_refresh && now - self.last_refresh
                > STALENESS_SECS,
        }
    }

    /// Replaces the cached outcome wholesale — on failure too, so that a
    /// failed fetch is cached as a failure state — and resets the clock.
    pub fn record_refresh(&mut self, outcome: KeySetOutcome, now: u64)
        ensures
            final(self).outcome == outcome,
            final(self).last_refresh == now,
    {
        self.outcome = outcome;
        self.last_refresh = now;
    }
}

/// Cache freshness: any request that arrives within the staleness window
/// after a recorded success is served from the cache; the consumer performs
/// no fetch for it.
pub proof fn lemma_cache_freshness(s: CacheState, now: u64)
    requires
        s.outcome is Available,
        s.last_refresh <= now,
        now - s.last_refresh <= STALENESS_SECS,
    ensures
        s.is_fresh(now),
{
}

/// Retry after failure: a cached failure is never fresh, so the very next
/// request — at any time, even immediately — triggers a fresh fetch attempt.
pub proof fn lemma_retry_after_failure(s: CacheState, now: u64)
    requires
        s.outcome is Unavailable,
    ensures
        !s.is_fresh(now),
{
}

/// Single flight: requests queued behind one successful refresh all find the
/// state fresh within the window, so none of them triggers a further fetch;
/// each is served the one recorded outcome.
pub proof fn lemma_single_flight(s: CacheState, ts: Seq<u64>)
    requires
        s.outcome is Available,
        forall|i: int| 0 <= i < ts.len() ==> s.last_refresh <= #[trigger] ts[i]
            && ts[i] - s.last_refresh <= STALENESS_SECS,
    ensures
        forall|i: int| 0 <= i < ts.len() ==> s.is_fresh(#[trigger] ts[i]),
{
}

} // verus!
