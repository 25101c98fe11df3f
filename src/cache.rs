use vstd::prelude::*;

verus! {

/// A point in time: whole seconds and nanoseconds since the Unix epoch.
#[derive(Clone, Copy, Debug, PartialEq, Eq, Structural)]
pub struct Timestamp {
    pub secs: u64,
    pub nanos: u32,
}

/// Nanoseconds per second.
pub const NANOS_PER_SEC: u32 = 1_000_000_000;

/// The age in days from which the cached catalog counts as outdated.
pub const MAX_CACHE_AGE_DAYS: i64 = 7;

impl Timestamp {
    /// The time in nanoseconds since the epoch.
    pub open spec fn total_nanos(self) -> int {
        self.secs * 1_000_000_000 + self.nanos
    }
}

/// The longest age, in nanoseconds, that a cached catalog may reach before it
/// is refetched.
pub open spec fn max_age_nanos() -> int {
    MAX_CACHE_AGE_DAYS * 86_400 * 1_000_000_000
}

/// Whether a cache file last modified at `modified` is outdated at `now`.
pub open spec fn outdated(modified: Timestamp, now: Timestamp) -> bool {
    now.total_nanos() - modified.total_nanos() >= max_age_nanos()
}

/// Relies on `chrono::Duration::days` and `num_seconds`: a span of `days`
/// days is `days * 86400` seconds (`days` bounded so that the span is in
/// range and `days` does not panic).
#[verifier::external_body]
fn seconds_in_days(days: i64) -> (r: i64)
    requires
        0 <= days <= 100_000,
    ensures
        r == days * 86_400,
{
    chrono::Duration::days(days).num_seconds()
}

fn nanos_since_epoch(t: Timestamp) -> (r: u128)
    ensures
        r == t.total_nanos(),
{
    let secs = t.secs as u128;
    assert(secs * 1_000_000_000 <= 0xFFFF_FFFF_FFFF_FFFFu128 * 1_000_000_000) by (nonlinear_arith)
        requires
            secs <= 0xFFFF_FFFF_FFFF_FFFFu128,
    ;
    secs * (NANOS_PER_SEC as u128) + t.nanos as u128
}

/// Whether a cache file last modified at `modified` is outdated at `now`:
/// its age is at least seven days. A modification time after `now` gives a
/// negative age, which is not outdated.
pub fn is_outdated(modified: Timestamp, now: Timestamp) -> (r: bool)
    ensures
        r == outdated(modified, now),
{
    let limit_secs = seconds_in_days(MAX_CACHE_AGE_DAYS);
    assert(limit_secs == 604_800);
    let limit: u128 = (limit_secs as u128) * 1_000_000_000u128;
    let m = nanos_since_epoch(modified);
    let n = nanos_since_epoch(now);
    n >= m && n - m >= limit
}

/// Where the preparation of the app catalog stands.
#[derive(Clone, Copy, Debug, PartialEq, Eq, Structural)]
pub enum CacheState {
    /// Find out whether the cache file exists.
    CheckCache,
    /// Read the cache file's modification time.
    CheckAge,
    /// Download the catalog and write it to the cache file.
    Fetch,
    /// The cache file is to be read: the catalog is ready.
    Ready,
    /// The catalog could not be obtained; the run cannot go on.
    Failed,
}

/// What the caller observed while acting on a `CacheState`.
#[derive(Clone, Copy, Debug, PartialEq, Eq, Structural)]
pub enum CacheEvent {
    /// The cache file does not exist.
    Absent,
    /// The cache file exists.
    Present,
    /// The cache file was last modified at `modified`; the time is `now`.
    Modified { modified: Timestamp, now: Timestamp },
    /// The catalog was downloaded and written to the cache file.
    Fetched,
    /// Downloading or writing the catalog failed.
    FetchFailed,
}

/// The next state, and whether the outdated cache file must be deleted
/// before acting on it.
#[derive(Clone, Copy, Debug, PartialEq, Eq, Structural)]
pub struct Transition {
    pub next: CacheState,
    pub delete_cache: bool,
}

/// The state in which a run starts: with updates disabled, the cache file is
/// used as it is.
pub open spec fn start(updates_disabled: bool) -> CacheState {
    if updates_disabled {
        CacheState::Ready
    } else {
        CacheState::CheckCache
    }
}

/// The transition on `event` in `state`. An event that does not belong to
/// the state leaves it as it is.
pub open spec fn transition(state: CacheState, event: CacheEvent) -> Transition {
    let stay = Transition { next: state, delete_cache: false };
    match (state, event) {
        (CacheState::CheckCache, CacheEvent::Absent) => Transition {
            next: CacheState::Fetch,
            delete_cache: false,
        },
        (CacheState::CheckCache, CacheEvent::Present) => Transition {
            next: CacheState::CheckAge,
            delete_cache: false,
        },
        (CacheState::CheckAge, CacheEvent::Modified { modified, now }) => if outdated(
            modified,
            now,
        ) {
            Transition { next: CacheState::Fetch, delete_cache: true }
        } else {
            Transition { next: CacheState::Ready, delete_cache: false }
        },
        (CacheState::Fetch, CacheEvent::Fetched) => Transition {
            next: CacheState::CheckCache,
            delete_cache: false,
        },
        (CacheState::Fetch, CacheEvent::FetchFailed) => Transition {
            next: CacheState::Failed,
            delete_cache: false,
        },
        _ => stay,
    }
}

/// The state in which a run starts.
pub fn initial_state(updates_disabled: bool) -> (r: CacheState)
    ensures
        r == start(updates_disabled),
{
    if updates_disabled {
        CacheState::Ready
    } else {
        CacheState::CheckCache
    }
}

/// Takes the preparation of the catalog one step on from `state`, given what
/// was observed there.
pub fn advance(state: CacheState, event: CacheEvent) -> (r: Transition)
    ensures
        r == transition(state, event),
{
    match (state, event) {
        (CacheState::CheckCache, CacheEvent::Absent) => Transition {
            next: CacheState::Fetch,
            delete_cache: false,
        },
        (CacheState::CheckCache, CacheEvent::Present) => Transition {
            next: CacheState::CheckAge,
            delete_cache: false,
        },
        (CacheState::CheckAge, CacheEvent::Modified { modified, now }) => {
            if is_outdated(modified, now) {
                Transition { next: CacheState::Fetch, delete_cache: true }
            } else {
                Transition { next: CacheState::Ready, delete_cache: false }
            }
        },
        (CacheState::Fetch, CacheEvent::Fetched) => Transition {
            next: CacheState::CheckCache,
            delete_cache: false,
        },
        (CacheState::Fetch, CacheEvent::FetchFailed) => Transition {
            next: CacheState::Failed,
            delete_cache: false,
        },
        _ => Transition { next: state, delete_cache: false },
    }
}

/// A cache file modified eight days before `now` is outdated: it is deleted
/// and the catalog fetched again. One modified six days before `now` is used
/// as it is.
pub proof fn lemma_week_old_cache_is_refetched(now: Timestamp, eight_days_ago: Timestamp, six_days_ago: Timestamp)
    requires
        eight_days_ago.total_nanos() == now.total_nanos() - 8 * 86_400 * 1_000_000_000,
        six_days_ago.total_nanos() == now.total_nanos() - 6 * 86_400 * 1_000_000_000,
    ensures
        transition(CacheState::CheckAge, CacheEvent::Modified { modified: eight_days_ago, now })
            == (Transition { next: CacheState::Fetch, delete_cache: true }),
        transition(CacheState::CheckAge, CacheEvent::Modified { modified: six_days_ago, now })
            == (Transition { next: CacheState::Ready, delete_cache: false }),
{
}

/// Once the catalog is ready or has failed, no event changes that.
pub proof fn lemma_terminal_states_stay(state: CacheState, event: CacheEvent)
    requires
        state == CacheState::Ready || state == CacheState::Failed,
    ensures
        transition(state, event) == (Transition { next: state, delete_cache: false }),
{
}

} // verus!
