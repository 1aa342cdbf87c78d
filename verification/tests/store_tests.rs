use rate_limiter::limiter::{
    check_verdict, remaining_from_count, remaining_from_reply, reset_from_ttl,
};
use rate_limiter::store::MemoryStore;
use rate_limiter::RateLimiterError;

// The atomic step hands back the post-increment counter: 1 on creation,
// then one more per call within the window.
#[test]
fn incr_and_expire_counts_from_one() {
    let mut store = MemoryStore::new();
    let key = String::from("k");
    assert_eq!(store.incr_and_expire(&key, 10), 1);
    assert_eq!(store.incr_and_expire(&key, 10), 2);
    assert_eq!(store.incr_and_expire(&key, 10), 3);
}

// Reads see the counter while its window is open and nothing after.
#[test]
fn reads_follow_the_window() {
    let mut store = MemoryStore::new();
    let key = String::from("k");
    let other = String::from("o");

    assert_eq!(store.get(&key), None);
    assert_eq!(store.get_ttl(&key), -2);

    store.incr_and_expire(&key, 5);
    store.incr_and_expire(&key, 5);
    assert_eq!(store.get(&key), Some(2));
    assert_eq!(store.get_ttl(&key), 5);
    assert_eq!(store.get(&other), None);

    store.advance(3);
    assert_eq!(store.get_ttl(&key), 2);
    assert_eq!(store.get(&key), Some(2));

    store.advance(2);
    assert_eq!(store.get(&key), None);
    assert_eq!(store.get_ttl(&key), -2);
}

// The expiry is attached only by the call that creates the counter: later
// calls never push the window's end further out.
#[test]
fn later_increments_do_not_extend_the_window() {
    let mut store = MemoryStore::new();
    let key = String::from("k");

    store.incr_and_expire(&key, 4);
    store.advance(3);
    store.incr_and_expire(&key, 4);
    assert_eq!(store.get_ttl(&key), 1);

    store.advance(1);
    assert_eq!(store.get(&key), None);
}

// After a window has lapsed, the next step starts a fresh window with the
// counter back at 1.
#[test]
fn lapsed_window_restarts_the_counter() {
    let mut store = MemoryStore::new();
    let key = String::from("k");

    assert_eq!(store.incr_and_expire(&key, 2), 1);
    assert_eq!(store.incr_and_expire(&key, 2), 2);
    store.advance(2);
    assert_eq!(store.incr_and_expire(&key, 2), 1);
    assert_eq!(store.get(&key), Some(1));
    assert_eq!(store.get_ttl(&key), 2);
}

// The verdict passes a counter at the ceiling and refuses one past it.
#[test]
fn verdict_compares_counter_and_ceiling() {
    assert!(check_verdict(1, 3).is_ok());
    assert!(check_verdict(3, 3).is_ok());
    assert!(matches!(
        check_verdict(4, 3),
        Err(RateLimiterError::RateLimitExceeded)
    ));
    assert!(matches!(
        check_verdict(1, 0),
        Err(RateLimiterError::RateLimitExceeded)
    ));
}

// The remaining allowance is the ceiling minus the counter, floored at zero.
#[test]
fn remaining_is_floored_subtraction() {
    assert_eq!(remaining_from_count(5, 0), 5);
    assert_eq!(remaining_from_count(5, 2), 3);
    assert_eq!(remaining_from_count(5, 5), 0);
    assert_eq!(remaining_from_count(3, 7), 0);
}

// A store reply with no counter under the key means the full ceiling is
// left; a held counter is subtracted as usual.
#[test]
fn absent_counter_leaves_the_full_ceiling() {
    assert_eq!(remaining_from_reply(5, None), 5);
    assert_eq!(remaining_from_reply(5, Some(0)), 5);
    assert_eq!(remaining_from_reply(5, Some(2)), 3);
    assert_eq!(remaining_from_reply(5, Some(9)), 0);
}

// The store's "no such key" answer becomes the limiter's sentinel; every
// other answer passes through.
#[test]
fn reset_maps_missing_key_to_sentinel() {
    assert_eq!(reset_from_ttl(-2), -1);
    assert_eq!(reset_from_ttl(-1), -1);
    assert_eq!(reset_from_ttl(0), 0);
    assert_eq!(reset_from_ttl(7), 7);
}
