//! The update gate: the composition the route layer calls.
//!
//! Given the cached normalized release (or the empty sentinel) and the
//! caller's current version, report either the release to update to or "no
//! update". Malformed input on either side fails closed: a spurious update
//! is never reported.

use vstd::prelude::*;

use crate::cache::opt_release_view;
use crate::cache::opt_release_well_formed;
use crate::release::NormalizedRelease;
use crate::release::ReleaseView;
use crate::version::has_update;
use crate::version::spec_has_update;

verus! {

/// Result of the update decision on a cached value and a caller version.
pub open spec fn spec_check_for_update(
    release: Option<ReleaseView>,
    current: Seq<char>,
) -> Option<ReleaseView> {
    match release {
        None => None,
        Some(rel) => if spec_has_update(current, rel.version) {
            Some(rel)
        } else {
            None
        },
    }
}

/// Decides whether to surface the cached release to a caller at
/// `current_version`. The platform identifier is accepted for future
/// platform-specific gating but does not filter the result: the full
/// platform map is returned whenever an update exists.
pub fn check_for_update(
    release: &Option<NormalizedRelease>,
    _platform: &str,
    current_version: &str,
) -> (r: Option<NormalizedRelease>)
    ensures
        opt_release_view(r) == spec_check_for_update(
            opt_release_view(*release),
            current_version@,
        ),
        opt_release_well_formed(*release) ==> opt_release_well_formed(r),
{
    match release {
        None => None,
        Some(rel) => {
            if has_update(current_version, rel.version.as_str()) {
                Some(rel.clone())
            } else {
                None
            }
        },
    }
}

} // verus!
