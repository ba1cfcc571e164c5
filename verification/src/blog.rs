//! Pagination arithmetic of the blog listing: the page number a caller
//! supplies is clamped to a representable range before it is turned into a
//! number of posts to skip, so the multiplication can never overflow.

use vstd::prelude::*;

verus! {

/// Posts shown per page.
pub const POSTS_PER_PAGE: u64 = 50;

/// The number of posts to skip for a 1-based page number; an absent or
/// zero page means the first page, and an oversized page is clamped so
/// that the count stays representable.
pub open spec fn spec_posts_to_skip(page: Option<u64>) -> int {
    let p = match page {
        Some(p) => p,
        None => 1u64,
    };
    let cap = u64::MAX as int / POSTS_PER_PAGE as int + 1;
    let c = if p < 1 {
        1
    } else if p as int > cap {
        cap
    } else {
        p as int
    };
    (c - 1) * POSTS_PER_PAGE as int
}

/// See `spec_posts_to_skip`.
pub fn posts_to_skip(page: Option<u64>) -> (r: u64)
    ensures
        r as int == spec_posts_to_skip(page),
{
    let p = match page {
        Some(p) => p,
        None => 1,
    };
    let cap: u64 = u64::MAX / POSTS_PER_PAGE + 1;
    let c = if p < 1 {
        1
    } else if p > cap {
        cap
    } else {
        p
    };
    (c - 1) * POSTS_PER_PAGE
}

} // verus!
