use vstd::prelude::*;

verus! {

/// How long, in seconds, loaded signatures stay valid: one day.
pub const CACHE_VALID_SECS: u64 = 86400;

/// What a call has to do before it can answer.
#[derive(Debug, Clone, Copy, PartialEq, Eq)]
pub enum LoadPlan {
    /// The signatures in memory are loaded and fresh.
    Ready,
    /// Fetch the feed from the network and write it to the cache file.
    FetchNetwork,
    /// Read the cache file; fetch from the network if that read fails.
    ReadCache,
}

/// Where a loaded feed came from.
#[derive(Debug, Clone, Copy, PartialEq, Eq)]
pub enum FeedSource {
    Network,
    Cache,
}

/// Whether signatures last fetched at `last` (seconds) must be fetched again
/// at `now`: never fetched, or more than the validity window ago. An instant
/// after `now` is not stale.
pub open spec fn needs_refresh_spec(last: Option<u64>, now: u64) -> bool {
    match last {
        None => true,
        Some(t) => t <= now && now - t > CACHE_VALID_SECS,
    }
}

/// The instant that freshness is measured from: the one kept in memory, else
/// the cache file's modification time.
pub open spec fn freshness_base(last_fetch: Option<u64>, cache_mtime: Option<u64>) -> Option<u64> {
    match last_fetch {
        Some(t) => Some(t),
        None => cache_mtime,
    }
}

/// The plan for a call made at `now`.
pub open spec fn plan_spec(loaded: bool, base: Option<u64>, now: u64) -> LoadPlan {
    if needs_refresh_spec(base, now) {
        LoadPlan::FetchNetwork
    } else if loaded {
        LoadPlan::Ready
    } else {
        LoadPlan::ReadCache
    }
}

/// The instant of the last fetch once a feed from `source` has been loaded at
/// `now`: a network fetch moves it forward to `now` (never back); a cache read
/// sets it only where none was kept.
pub open spec fn after_load(last: Option<u64>, source: FeedSource, now: u64) -> Option<u64> {
    match source {
        FeedSource::Network => match last {
            Some(t) => if t > now {
                Some(t)
            } else {
                Some(now)
            },
            None => Some(now),
        },
        FeedSource::Cache => match last {
            Some(t) => Some(t),
            None => Some(now),
        },
    }
}

pub fn needs_refresh(last: Option<u64>, now: u64) -> (r: bool)
    ensures
        r == needs_refresh_spec(last, now),
{
    match last {
        None => true,
        Some(t) => t <= now && now - t > CACHE_VALID_SECS,
    }
}

pub fn plan_load(loaded: bool, last_fetch: Option<u64>, cache_mtime: Option<u64>, now: u64) -> (r: LoadPlan)
    ensures
        r == plan_spec(loaded, freshness_base(last_fetch, cache_mtime), now),
{
    let base = match last_fetch {
        Some(t) => Some(t),
        None => cache_mtime,
    };
    if needs_refresh(base, now) {
        LoadPlan::FetchNetwork
    } else if loaded {
        LoadPlan::Ready
    } else {
        LoadPlan::ReadCache
    }
}

pub fn next_last_fetch(last: Option<u64>, source: FeedSource, now: u64) -> (r: Option<u64>)
    ensures
        r == after_load(last, source, now),
{
    match source {
        FeedSource::Network => match last {
            Some(t) => if t > now {
                Some(t)
            } else {
                Some(now)
            },
            None => Some(now),
        },
        FeedSource::Cache => match last {
            Some(t) => Some(t),
            None => Some(now),
        },
    }
}

/// The instant of the last fetch never moves back: loading keeps or advances it.
pub proof fn lemma_last_fetch_monotonic(last: Option<u64>, source: FeedSource, now: u64)
    ensures
        after_load(last, source, now) is Some,
        last matches Some(t) ==> after_load(last, source, now)->0 >= t,
        source == FeedSource::Network ==> after_load(last, source, now)->0 >= now,
{
}

/// Two calls in immediate succession fetch at most once: once a call has
/// carried out a plan other than `Ready` (loading from the network, or from
/// the cache where that was the plan), a call at the same instant finds the
/// signatures loaded and fresh, whatever the cache file's time has become.
pub proof fn lemma_loaded_then_ready(
    loaded: bool,
    last: Option<u64>,
    cache_mtime: Option<u64>,
    cache_mtime_after: Option<u64>,
    source: FeedSource,
    now: u64,
)
    requires
        plan_spec(loaded, freshness_base(last, cache_mtime), now) != LoadPlan::Ready,
        source == FeedSource::Network || plan_spec(loaded, freshness_base(last, cache_mtime), now)
            == LoadPlan::ReadCache,
    ensures
        plan_spec(true, freshness_base(after_load(last, source, now), cache_mtime_after), now)
            == LoadPlan::Ready,
{
}

/// Once fetched from the network at `now` (no later fetch being recorded), the
/// signatures stay fresh for the whole validity window and are due again once
/// more than that has passed.
pub proof fn lemma_fresh_for_window(last: Option<u64>, now: u64, later: u64)
    requires
        now <= later,
        last matches Some(t) ==> t <= now,
    ensures
        needs_refresh_spec(after_load(last, FeedSource::Network, now), later) == (later - now
            > CACHE_VALID_SECS),
{
}

} // verus!
