//! TTL cache state and refresh discipline.
//!
//! A cache entry holds the last normalized release (or `None`, the sentinel
//! for "no usable data yet" or "last fetch failed") and the instant until
//! which it is fresh. The caller owns the locking: it looks the entry up
//! under a shared lock, and when the entry is stale, looks it up again under
//! an exclusive lock before refreshing — `cache_lookup` is the decision of
//! both checks, and `apply_refresh` the single mutation. The contracts here
//! pin the double-checked protocol down: a refresh is decided only on a
//! stale entry, and a refresh keeps the entry fresh for the whole TTL
//! window, so concurrent callers racing one expiry collapse into a single
//! upstream fetch.

use vstd::prelude::*;

use crate::release::NormalizedRelease;
use crate::release::ReleaseView;

verus! {

/// Seconds a refreshed entry stays fresh.
pub const TTL: u64 = 5 * 60;

/// A cache entry: the cached value and the instant its freshness ends.
pub struct TauriGHRelease {
    pub value: Option<NormalizedRelease>,
    pub expiry: u64,
}

/// The view of an optional release.
pub open spec fn opt_release_view(o: Option<NormalizedRelease>) -> Option<ReleaseView> {
    match o {
        Some(r) => Some(r@),
        None => None,
    }
}

/// Well-formedness of an optional release.
pub open spec fn opt_release_well_formed(o: Option<NormalizedRelease>) -> bool {
    match o {
        Some(r) => r.well_formed(),
        None => true,
    }
}

impl TauriGHRelease {
    /// Fresh exactly when the expiry lies strictly in the future.
    pub open spec fn fresh_at(&self, now: u64) -> bool {
        self.expiry > now
    }

    /// The cached value, when present, is well formed.
    pub open spec fn well_formed(&self) -> bool {
        opt_release_well_formed(self.value)
    }
}

/// A new cache entry: no value yet, and already stale at its creation
/// instant, so the first caller triggers a refresh.
pub fn new_tauri_gh_release(now: u64) -> (r: TauriGHRelease)
    ensures
        r.value is None,
        r.expiry == now,
        !r.fresh_at(now),
        r.well_formed(),
{
    TauriGHRelease { value: None, expiry: now }
}

/// What a caller holding a lock on the entry does next: serve the cached
/// value, or perform the one refresh.
pub enum CacheDecision {
    Hit(Option<NormalizedRelease>),
    Refresh,
}

/// The freshness check performed under either lock. On a fresh entry the
/// caller serves a copy of the cached value and never contacts upstream; on
/// a stale entry it must refresh (after re-checking under the exclusive
/// lock).
pub fn cache_lookup(entry: &TauriGHRelease, now: u64) -> (r: CacheDecision)
    ensures
        entry.fresh_at(now) ==> (r matches CacheDecision::Hit(v) && opt_release_view(v)
            == opt_release_view(entry.value) && (entry.well_formed()
            ==> opt_release_well_formed(v))),
        !entry.fresh_at(now) ==> r is Refresh,
{
    if entry.expiry > now {
        let v = match &entry.value {
            Some(rel) => Some(rel.clone()),
            None => None,
        };
        CacheDecision::Hit(v)
    } else {
        CacheDecision::Refresh
    }
}

/// The single mutation of the cache: installs the refreshed value (or the
/// empty sentinel when the fetch or the normalization failed) and pushes
/// the expiry one TTL past `now`.
pub fn apply_refresh(entry: &mut TauriGHRelease, value: Option<NormalizedRelease>, now: u64)
    requires
        now + TTL <= u64::MAX,
    ensures
        final(entry).value == value,
        final(entry).expiry == now + TTL,
        opt_release_well_formed(value) ==> final(entry).well_formed(),
{
    entry.value = value;
    entry.expiry = now + TTL;
}

/// The double-checked-locking window: after a refresh at instant `t`, the
/// entry is fresh at every instant of the following TTL window. A caller
/// refreshes only on a `Refresh` decision, and `cache_lookup` never decides
/// `Refresh` on a fresh entry, so however many callers race the expiry, the
/// re-check under the exclusive lock lets at most the first of them fetch;
/// within the window, repeated lookups serve the cached value and perform
/// no further fetch.
pub proof fn lemma_refresh_window(entry: TauriGHRelease, t: u64, now: u64)
    requires
        entry.expiry == t + TTL,
        t <= now < t + TTL,
    ensures
        entry.fresh_at(now),
{
}

} // verus!
