use release_gate::cache::apply_refresh;
use release_gate::cache::cache_lookup;
use release_gate::cache::new_tauri_gh_release;
use release_gate::cache::CacheDecision;
use release_gate::cache::TTL;
use release_gate::release::NormalizedRelease;

fn sample_release() -> NormalizedRelease {
    NormalizedRelease {
        version: "v1.2.4".to_string(),
        notes: "Fixed bugs.".to_string(),
        pub_date: "2022-01-01T00:00:00Z".to_string(),
        platforms: vec![],
    }
}

#[test]
fn new_entry_is_stale() {
    let entry = new_tauri_gh_release(1000);
    assert!(matches!(cache_lookup(&entry, 1000), CacheDecision::Refresh));
    assert!(matches!(cache_lookup(&entry, 2000), CacheDecision::Refresh));
}

#[test]
fn refresh_then_hit_within_ttl() {
    let mut entry = new_tauri_gh_release(1000);
    apply_refresh(&mut entry, Some(sample_release()), 1000);
    match cache_lookup(&entry, 1000 + TTL - 1) {
        CacheDecision::Hit(v) => {
            assert_eq!(v.expect("cached value").version, "v1.2.4");
        }
        CacheDecision::Refresh => panic!("entry should still be fresh"),
    }
}

#[test]
fn stale_again_at_expiry_instant() {
    let mut entry = new_tauri_gh_release(1000);
    apply_refresh(&mut entry, Some(sample_release()), 1000);
    assert!(matches!(cache_lookup(&entry, 1000 + TTL), CacheDecision::Refresh));
}

#[test]
fn failed_refresh_caches_empty_sentinel() {
    let mut entry = new_tauri_gh_release(50);
    apply_refresh(&mut entry, None, 50);
    match cache_lookup(&entry, 51) {
        CacheDecision::Hit(v) => assert!(v.is_none()),
        CacheDecision::Refresh => panic!("entry should be fresh"),
    }
}

// One caller's double-checked pass over the entry: check, re-check under
// the exclusive section, and only then fetch and refresh.
fn protocol_get(
    entry: &mut release_gate::cache::TauriGHRelease,
    now: u64,
    fetches: &mut u32,
) -> Option<NormalizedRelease> {
    // shared-lock check
    match cache_lookup(entry, now) {
        CacheDecision::Hit(v) => v,
        CacheDecision::Refresh => {
            // exclusive-lock re-check before contacting upstream
            match cache_lookup(entry, now) {
                CacheDecision::Hit(v) => v,
                CacheDecision::Refresh => {
                    *fetches += 1;
                    let fetched = Some(sample_release());
                    apply_refresh(entry, fetched.clone(), now);
                    fetched
                }
            }
        }
    }
}

#[test]
fn two_gets_within_ttl_fetch_once() {
    let mut entry = new_tauri_gh_release(0);
    let mut fetches = 0u32;
    let first = protocol_get(&mut entry, 10, &mut fetches);
    assert!(first.is_some());
    let second = protocol_get(&mut entry, 10 + TTL - 1, &mut fetches);
    assert!(second.is_some());
    assert_eq!(fetches, 1);
}

#[test]
fn callers_racing_one_expiry_fetch_once() {
    let mut entry = new_tauri_gh_release(0);
    let now = 5u64;
    let mut fetches = 0u32;
    for _ in 0..16 {
        let value = protocol_get(&mut entry, now, &mut fetches);
        assert_eq!(value.expect("cached value").version, "v1.2.4");
    }
    assert_eq!(fetches, 1);
}

#[test]
fn expiry_after_window_triggers_second_fetch() {
    let mut entry = new_tauri_gh_release(0);
    let mut fetches = 0u32;
    protocol_get(&mut entry, 1, &mut fetches);
    protocol_get(&mut entry, 1 + TTL, &mut fetches);
    assert_eq!(fetches, 2);
}
