use rate_limiter::store::MemoryStore;
use rate_limiter::{RateLimiter, RateLimiterError};

#[test]
fn test_basic_rate_limiting() -> Result<(), RateLimiterError> {
    let store = MemoryStore::new();
    let mut limiter = RateLimiter::with_memory_store(store, "test_rate_limiter_1", 3, 1);
    let identifier = "user_1";

    assert!(limiter.check(identifier).is_ok());
    assert!(limiter.check(identifier).is_ok());
    assert!(limiter.check(identifier).is_ok());
    assert!(limiter.check(identifier).is_err()); // Rate limit exceeded

    limiter.advance_clock(2); // Wait for the window to expire

    assert!(limiter.check(identifier).is_ok()); // Should allow again

    Ok(())
}

#[test]
fn test_multiple_identifiers() -> Result<(), RateLimiterError> {
    let store = MemoryStore::new();
    let mut limiter = RateLimiter::with_memory_store(store, "test_rate_limiter_2", 2, 1);
    let user_1 = "user_1";
    let user_2 = "user_2";

    assert!(limiter.check(user_1).is_ok());
    assert!(limiter.check(user_2).is_ok());
    assert!(limiter.check(user_1).is_ok());
    assert!(limiter.check(user_2).is_ok());
    assert!(limiter.check(user_1).is_err());
    assert!(limiter.check(user_2).is_err());

    limiter.advance_clock(2);

    assert!(limiter.check(user_1).is_ok());
    assert!(limiter.check(user_2).is_ok());

    Ok(())
}

#[test]
fn test_get_remaining() -> Result<(), RateLimiterError> {
    let store = MemoryStore::new();
    let mut limiter = RateLimiter::with_memory_store(store, "test_rate_limiter_3", 5, 5);
    let identifier = "user_3";

    assert_eq!(limiter.get_remaining(identifier)?, 5);
    assert!(limiter.check(identifier).is_ok());
    assert_eq!(limiter.get_remaining(identifier)?, 4);
    assert!(limiter.check(identifier).is_ok());
    assert_eq!(limiter.get_remaining(identifier)?, 3);

    Ok(())
}

#[test]
fn test_get_time_remaining() -> Result<(), RateLimiterError> {
    let store = MemoryStore::new();
    let mut limiter = RateLimiter::with_memory_store(store, "test_rate_limiter_4", 2, 3);
    let identifier = "user_4";

    assert!(limiter.check(identifier).is_ok());
    let ttl1 = limiter.get_time_remaining(identifier)?;
    assert!(ttl1 > 0 && ttl1 <= 3);

    limiter.advance_clock(2);
    let ttl2 = limiter.get_time_remaining(identifier)?;
    assert!(ttl2 >= 0 && ttl2 <= 1);

    limiter.advance_clock(2);
    let ttl3 = limiter.get_time_remaining(identifier)?;
    assert_eq!(ttl3, -1); // Key should have expired

    Ok(())
}

// Ceiling 3, window 1: three calls pass, the fourth fails, and after the
// window has lapsed a call passes again with two left behind it.
#[test]
fn fourth_call_fails_then_window_resets() {
    let store = MemoryStore::new();
    let mut limiter = RateLimiter::with_memory_store(store, "burst", 3, 1);

    assert!(limiter.check("u").is_ok());
    assert!(limiter.check("u").is_ok());
    assert!(limiter.check("u").is_ok());
    assert!(matches!(
        limiter.check("u"),
        Err(RateLimiterError::RateLimitExceeded)
    ));

    limiter.advance_clock(2);

    assert!(limiter.check("u").is_ok());
    assert_eq!(limiter.get_remaining("u").unwrap(), 2);
}

// The counter keeps counting refused calls, but remaining never goes below
// zero, and time-to-reset answers the sentinel both before the first call
// and after the window has lapsed.
#[test]
fn remaining_floors_at_zero_and_reset_sentinel() {
    let store = MemoryStore::new();
    let mut limiter = RateLimiter::with_memory_store(store, "floor", 2, 4);

    assert_eq!(limiter.get_time_remaining("u").unwrap(), -1);
    assert_eq!(limiter.get_remaining("u").unwrap(), 2);

    assert!(limiter.check("u").is_ok());
    assert_eq!(limiter.get_remaining("u").unwrap(), 1);
    assert!(limiter.check("u").is_ok());
    assert_eq!(limiter.get_remaining("u").unwrap(), 0);
    assert!(limiter.check("u").is_err());
    assert_eq!(limiter.get_remaining("u").unwrap(), 0);

    let ttl = limiter.get_time_remaining("u").unwrap();
    assert!(ttl > 0 && ttl <= 4);

    limiter.advance_clock(4);
    assert_eq!(limiter.get_time_remaining("u").unwrap(), -1);
    assert_eq!(limiter.get_remaining("u").unwrap(), 2);
}

// Exhausting one identifier's ceiling leaves another identifier untouched.
#[test]
fn identifiers_do_not_interfere() {
    let store = MemoryStore::new();
    let mut limiter = RateLimiter::with_memory_store(store, "iso", 2, 10);

    assert!(limiter.check("a").is_ok());
    assert!(limiter.check("a").is_ok());
    assert!(limiter.check("a").is_err());

    assert_eq!(limiter.get_remaining("b").unwrap(), 2);
    assert!(limiter.check("b").is_ok());
    assert_eq!(limiter.get_remaining("b").unwrap(), 1);
    assert_eq!(limiter.get_remaining("a").unwrap(), 0);
}

// Two limiters with the same prefix, ceiling and window over the same store
// carry on as one: the second continues exactly where the first stopped.
#[test]
fn second_instance_continues_where_first_stopped() {
    let store = MemoryStore::new();
    let mut first = RateLimiter::with_memory_store(store, "api", 5, 10);

    assert!(first.check("u").is_ok());
    assert!(first.check("u").is_ok());
    assert_eq!(first.get_remaining("u").unwrap(), 3);

    let store = first.into_store().unwrap();
    let mut second = RateLimiter::with_memory_store(store, "api", 5, 10);

    assert_eq!(second.get_remaining("u").unwrap(), 3);
    assert!(second.check("u").is_ok());
    assert!(second.check("u").is_ok());
    assert!(second.check("u").is_ok());
    assert!(matches!(
        second.check("u"),
        Err(RateLimiterError::RateLimitExceeded)
    ));
}

// A window of zero seconds is rounded up to one second.
#[test]
fn zero_window_rounds_up_to_one_second() {
    let store = MemoryStore::new();
    let mut limiter = RateLimiter::with_memory_store(store, "zero", 1, 0);

    assert!(limiter.check("u").is_ok());
    assert_eq!(limiter.get_time_remaining("u").unwrap(), 1);
    assert!(limiter.check("u").is_err());

    limiter.advance_clock(1);
    assert!(limiter.check("u").is_ok());
}

// A malformed store URL is refused when the limiter is built.
#[test]
fn malformed_url_is_refused() {
    let r = RateLimiter::new("not a redis url", "p", 3, 1);
    assert!(matches!(r, Err(RateLimiterError::Redis(_))));
}

// A well-formed URL parses without touching the network; the failure to
// reach the server surfaces on the first call, as a store error and not as
// an exceeded limit.
#[test]
fn unreachable_server_fails_at_call_time() {
    let mut limiter = RateLimiter::new("redis://127.0.0.1:1/", "p", 3, 1).unwrap();
    assert!(matches!(
        limiter.check("u"),
        Err(RateLimiterError::Redis(_))
    ));
    assert!(matches!(
        limiter.get_remaining("u"),
        Err(RateLimiterError::Redis(_))
    ));
    assert!(matches!(
        limiter.get_time_remaining("u"),
        Err(RateLimiterError::Redis(_))
    ));
}

// A limiter over redis holds no in-memory store to hand back.
#[test]
fn redis_limiter_owns_no_memory_store() {
    let limiter = RateLimiter::new("redis://127.0.0.1:1/", "p", 3, 1).unwrap();
    assert!(limiter.into_store().is_none());
}
