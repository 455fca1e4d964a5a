//! Tile-fetch protocol: disk cache first, then the network with an unbounded
//! fixed-interval retry on rate limiting.
//!
//! The blocking work (reading and writing the cache, the HTTP request, the
//! backoff sleep) is performed by the surrounding process; this module owns
//! every decision.  The driver asks for the next action, performs it, and
//! reports what happened as an event; the step function is exact about the
//! successor state and action, so the protocol's properties (a cache hit
//! answers without any request; bytes are persisted at most once per fetch)
//! are facts of the machine rather than of any driver.

use vstd::prelude::*;

verus! {

/// Seconds the driver sleeps before retrying a rate-limited request.
pub const RETRY_DELAY_SECONDS: u64 = 5;

/// What the surrounding process observed while performing the last action.
#[derive(Debug)]
pub enum FetchEvent {
    /// A cache entry exists and these are its bytes.
    CacheHit(Vec<u8>),
    /// No cache entry exists for the tile.
    CacheMiss,
    /// A cache entry exists but could not be read; treated as a miss.
    CacheUnreadable,
    /// The HTTP request completed with this status code and body.
    HttpResponse(u16, Vec<u8>),
    /// The HTTP request failed before any status was received.
    RequestFailed,
    /// The backoff sleep has elapsed.
    Slept,
}

/// What the driver must do next.
#[derive(Debug)]
pub enum FetchAction {
    /// Look the tile up in the disk cache.
    ReadCache,
    /// Issue the HTTP GET for the tile.
    HttpGet,
    /// Sleep for `RETRY_DELAY_SECONDS`, then report `Slept`.
    SleepRetry,
    /// Persist these bytes to the cache entry, then hand them out: the
    /// successful end of a network fetch.
    StoreAndFinish(Vec<u8>),
    /// Hand these bytes out without touching the cache: the end of a fetch
    /// answered by the cache.
    Finish(Vec<u8>),
    /// The server answered with this non-200, non-429 status: a permanent
    /// failure for this fetch, shown downstream as a blank tile.
    FinishFailed(u16),
}

/// Where the fetch protocol stands.
#[derive(Clone, Copy, PartialEq, Eq, Structural, Debug)]
pub enum FetchState {
    /// Waiting for the result of the cache lookup.
    CheckingCache,
    /// Waiting for the result of the HTTP request.
    Fetching,
    /// Waiting for the backoff sleep to elapse.
    Sleeping,
    /// The fetch is over; no further event is accepted.
    Finished,
}

/// The events that answer the action issued in each state.
pub open spec fn accepts(state: FetchState, event: FetchEvent) -> bool {
    match state {
        FetchState::CheckingCache => event matches FetchEvent::CacheHit(_) || event
            matches FetchEvent::CacheMiss || event matches FetchEvent::CacheUnreadable,
        FetchState::Fetching => event matches FetchEvent::HttpResponse(_, _) || event
            matches FetchEvent::RequestFailed,
        FetchState::Sleeping => event matches FetchEvent::Slept,
        FetchState::Finished => false,
    }
}

/// The transition table: successor state and next action for an accepted
/// event.
pub open spec fn spec_step(state: FetchState, event: FetchEvent) -> (FetchState, FetchAction) {
    match (state, event) {
        (FetchState::CheckingCache, FetchEvent::CacheHit(bytes)) => (
            FetchState::Finished,
            FetchAction::Finish(bytes),
        ),
        (FetchState::CheckingCache, FetchEvent::CacheMiss) => (
            FetchState::Fetching,
            FetchAction::HttpGet,
        ),
        (FetchState::CheckingCache, FetchEvent::CacheUnreadable) => (
            FetchState::Fetching,
            FetchAction::HttpGet,
        ),
        (FetchState::Fetching, FetchEvent::HttpResponse(status, bytes)) => if status == 200 {
            (FetchState::Finished, FetchAction::StoreAndFinish(bytes))
        } else if status == 429 {
            (FetchState::Sleeping, FetchAction::SleepRetry)
        } else {
            (FetchState::Finished, FetchAction::FinishFailed(status))
        },
        (FetchState::Fetching, FetchEvent::RequestFailed) => (
            FetchState::Fetching,
            FetchAction::HttpGet,
        ),
        (FetchState::Sleeping, FetchEvent::Slept) => (FetchState::Fetching, FetchAction::HttpGet),
        _ => (state, FetchAction::ReadCache),
    }
}

/// Begins a fetch: the driver's first task is the cache lookup.
pub fn fetch_start() -> (r: (FetchState, FetchAction))
    ensures
        r.0 == FetchState::CheckingCache,
        r.1 == FetchAction::ReadCache,
{
    (FetchState::CheckingCache, FetchAction::ReadCache)
}

/// One protocol step: consumes the event answering the previous action and
/// returns the successor state with the next action, exactly as the
/// transition table says.
pub fn fetch_step(state: FetchState, event: FetchEvent) -> (r: (FetchState, FetchAction))
    requires
        accepts(state, event),
    ensures
        r == spec_step(state, event),
{
    match (state, event) {
        (FetchState::CheckingCache, FetchEvent::CacheHit(bytes)) => (
            FetchState::Finished,
            FetchAction::Finish(bytes),
        ),
        (FetchState::CheckingCache, FetchEvent::CacheMiss) => (
            FetchState::Fetching,
            FetchAction::HttpGet,
        ),
        (FetchState::CheckingCache, FetchEvent::CacheUnreadable) => (
            FetchState::Fetching,
            FetchAction::HttpGet,
        ),
        (FetchState::Fetching, FetchEvent::HttpResponse(status, bytes)) => {
            if status == 200 {
                (FetchState::Finished, FetchAction::StoreAndFinish(bytes))
            } else if status == 429 {
                (FetchState::Sleeping, FetchAction::SleepRetry)
            } else {
                (FetchState::Finished, FetchAction::FinishFailed(status))
            }
        },
        (FetchState::Fetching, FetchEvent::RequestFailed) => (
            FetchState::Fetching,
            FetchAction::HttpGet,
        ),
        (FetchState::Sleeping, FetchEvent::Slept) => (FetchState::Fetching, FetchAction::HttpGet),
        _ => vstd::pervasive::unreached(),
    }
}

/// The actions a run of the machine issues from `state` under a sequence of
/// events, stopping at the first event the current state does not accept.
pub open spec fn spec_run(state: FetchState, events: Seq<FetchEvent>) -> Seq<FetchAction>
    decreases events.len(),
{
    if events.len() == 0 || !accepts(state, events[0]) {
        Seq::empty()
    } else {
        let (next, action) = spec_step(state, events[0]);
        seq![action] + spec_run(next, events.drop_first())
    }
}

/// How many of the actions persist bytes to the cache.
pub open spec fn store_count(actions: Seq<FetchAction>) -> nat
    decreases actions.len(),
{
    if actions.len() == 0 {
        0
    } else {
        (if actions[0] matches FetchAction::StoreAndFinish(_) {
            1nat
        } else {
            0nat
        }) + store_count(actions.drop_first())
    }
}

/// A fetch answered by the cache issues no request and no write: the cache
/// hit ends the run at once, handing out exactly the cached bytes.
pub proof fn lemma_cache_hit_answers_from_cache(bytes: Vec<u8>, rest: Seq<FetchEvent>)
    ensures
        spec_run(FetchState::CheckingCache, seq![FetchEvent::CacheHit(bytes)] + rest) == seq![
            FetchAction::Finish(bytes),
        ],
{
    let evs = seq![FetchEvent::CacheHit(bytes)] + rest;
    assert(evs[0] == FetchEvent::CacheHit(bytes));
    assert(spec_run(FetchState::Finished, evs.drop_first()) == Seq::<FetchAction>::empty());
    assert(spec_run(FetchState::CheckingCache, evs) == seq![FetchAction::Finish(bytes)] + Seq::<
        FetchAction,
    >::empty());
    assert(seq![FetchAction::Finish(bytes)] + Seq::<FetchAction>::empty() == seq![
        FetchAction::Finish(bytes),
    ]);
}

/// However a run goes, bytes are persisted to the cache at most once: the
/// persisting action is issued together with the final state, which accepts
/// no further event.
pub proof fn lemma_store_at_most_once(state: FetchState, events: Seq<FetchEvent>)
    ensures
        store_count(spec_run(state, events)) <= 1,
    decreases events.len(),
{
    if events.len() == 0 || !accepts(state, events[0]) {
    } else {
        let (next, action) = spec_step(state, events[0]);
        let rest = spec_run(next, events.drop_first());
        lemma_store_at_most_once(next, events.drop_first());
        assert(spec_run(state, events) == seq![action] + rest);
        assert((seq![action] + rest).drop_first() == rest);
        if action matches FetchAction::StoreAndFinish(_) {
            assert(next == FetchState::Finished);
            assert(store_count(rest) == 0);
        }
    }
}

} // verus!
