//! The limiter's guarantees, proved over the store model: what a run of
//! checks within one window admits, what the lapse of the window restores,
//! how the remaining allowance and the reset time move, and that neither
//! other identifiers nor the choice of limiter instance can interfere.

use crate::limiter::{check_allowed, spec_key, spec_remaining, spec_time_to_reset, RateLimiter};
use crate::store::{advance_model, check_count, check_step, count_of, sat_add64, StoreModel};
use vstd::prelude::*;

verus! {

/// The store after `k` back-to-back checks of the same key, with no time
/// passing in between.
pub open spec fn check_steps(m: StoreModel, key: Seq<char>, window: u64, k: nat) -> StoreModel
    decreases k,
{
    if k == 0 {
        m
    } else {
        check_step(check_steps(m, key, window, (k - 1) as nat), key, window)
    }
}

/// Within one window, `k` back-to-back checks of a key that had no live
/// counter leave the counter at exactly `k`, with the window still ending
/// where the first check put it and the clock untouched.
pub proof fn lemma_fresh_counter_counts(m: StoreModel, key: Seq<char>, window: u64, k: nat)
    requires
        !m.entries.contains_key(key),
        1 <= window,
        m.now + window <= u64::MAX,
        1 <= k <= u64::MAX,
    ensures
        ({
            let mk = check_steps(m, key, window, k);
            &&& mk.entries.contains_key(key)
            &&& mk.entries[key].count == k
            &&& mk.entries[key].deadline == m.now + window
            &&& mk.now == m.now
        }),
    decreases k,
{
    if k == 1 {
        assert(check_steps(m, key, window, 0) == m);
        assert(sat_add64(m.now, window) == m.now + window);
    } else {
        lemma_fresh_counter_counts(m, key, window, (k - 1) as nat);
    }
}

/// With ceiling `N` and a fresh identifier, the `k`-th of a run of checks
/// within one window passes exactly when `k` is at most `N`: the first `N`
/// pass, and from the `(N+1)`-th on every check fails.
pub proof fn lemma_window_admits_ceiling(
    m: StoreModel,
    key: Seq<char>,
    window: u64,
    ceiling: u64,
    k: nat,
)
    requires
        !m.entries.contains_key(key),
        1 <= window,
        m.now + window <= u64::MAX,
        ceiling < u64::MAX,
        1 <= k <= ceiling + 1,
    ensures
        check_allowed(check_steps(m, key, window, (k - 1) as nat), key, ceiling) <==> k
            <= ceiling,
{
    if k == 1 {
    } else {
        lemma_fresh_counter_counts(m, key, window, (k - 1) as nat);
        assert(check_count(check_steps(m, key, window, (k - 1) as nat), key) == k);
    }
}

/// Once the window has elapsed, the identifier has no live counter any
/// more; the next check passes again (for any positive ceiling) and its
/// counter restarts at 1, in a window ending a full `window` ahead.
pub proof fn lemma_reset_after_window(
    m: StoreModel,
    key: Seq<char>,
    window: u64,
    ceiling: u64,
    wait: u64,
)
    requires
        m.entries.contains_key(key),
        m.entries[key].deadline <= sat_add64(m.now, wait),
        1 <= ceiling,
        1 <= window,
        sat_add64(m.now, wait) + window <= u64::MAX,
    ensures
        ({
            let m2 = advance_model(m, wait);
            &&& !m2.entries.contains_key(key)
            &&& check_count(m2, key) == 1
            &&& check_allowed(m2, key, ceiling)
            &&& check_step(m2, key, window).entries[key] == (crate::store::EntryModel {
                count: 1u64,
                deadline: (m2.now + window) as u64,
            })
        }),
{
    let m2 = advance_model(m, wait);
    assert(sat_add64(m2.now, window) == m2.now + window);
}

/// The remaining allowance starts at the full ceiling while no counter is
/// live, falls by exactly one on every passing check, and stays at zero on
/// every failing check even though the counter itself keeps rising.
pub proof fn lemma_remaining_moves_with_checks(
    m: StoreModel,
    key: Seq<char>,
    window: u64,
    ceiling: u64,
)
    requires
        1 <= window,
        m.now + window <= u64::MAX,
        count_of(m, key) < u64::MAX,
    ensures
        !m.entries.contains_key(key) ==> spec_remaining(ceiling, count_of(m, key)) == ceiling,
        check_allowed(m, key, ceiling) ==> spec_remaining(
            ceiling,
            count_of(check_step(m, key, window), key),
        ) == spec_remaining(ceiling, count_of(m, key)) - 1,
        !check_allowed(m, key, ceiling) ==> {
            &&& spec_remaining(ceiling, count_of(check_step(m, key, window), key)) == 0
            &&& spec_remaining(ceiling, count_of(m, key)) == 0
            &&& count_of(check_step(m, key, window), key) == count_of(m, key) + 1
        },
{
    assert(sat_add64(m.now, window) == m.now + window);
}

/// The reset time is the sentinel while no window is open, is positive and
/// at most the window length right after the check that opens one, and is
/// the sentinel again once at least the window length has passed.
pub proof fn lemma_time_to_reset_bounds(m: StoreModel, key: Seq<char>, window: u64, wait: u64)
    requires
        !m.entries.contains_key(key),
        1 <= window,
        m.now + window <= u64::MAX,
    ensures
        spec_time_to_reset(m, key) == -1,
        ({
            let m1 = check_step(m, key, window);
            &&& 0 < spec_time_to_reset(m1, key) <= window
            &&& (wait >= window ==> spec_time_to_reset(advance_model(m1, wait), key) == -1)
        }),
{
    assert(sat_add64(m.now, window) == m.now + window);
}

/// Distinct keys never interfere: a check of one key leaves the other key's
/// counter, its next check's count, its remaining allowance and its reset
/// time exactly as they were.
pub proof fn lemma_independent_keys(
    m: StoreModel,
    key: Seq<char>,
    other: Seq<char>,
    window: u64,
    ceiling: u64,
)
    requires
        key != other,
    ensures
        ({
            let m1 = check_step(m, key, window);
            &&& count_of(m1, other) == count_of(m, other)
            &&& check_count(m1, other) == check_count(m, other)
            &&& (check_allowed(m1, other, ceiling) <==> check_allowed(m, other, ceiling))
            &&& spec_remaining(ceiling, count_of(m1, other)) == spec_remaining(
                ceiling,
                count_of(m, other),
            )
            &&& spec_time_to_reset(m1, other) == spec_time_to_reset(m, other)
        }),
{
}

/// Two distinct identifiers under one limiter use distinct store keys, so
/// the independence of keys carries over to identifiers.
pub proof fn lemma_distinct_identifiers_distinct_keys(
    prefix: Seq<char>,
    a: Seq<char>,
    b: Seq<char>,
)
    requires
        a != b,
    ensures
        spec_key(prefix, a) != spec_key(prefix, b),
{
    let ka = spec_key(prefix, a);
    let kb = spec_key(prefix, b);
    if ka == kb {
        let n = prefix.len() + ":"@.len();
        assert(ka.len() == n + a.len());
        assert(kb.len() == n + b.len());
        assert forall|i: int| 0 <= i < a.len() implies a[i] == b[i] by {
            assert(ka[n + i] == a[i]);
            assert(kb[n + i] == b[i]);
        }
        assert(a =~= b);
    }
}

/// The limiter holds no state of its own: two well-formed limiters with the
/// same prefix, ceiling and window over the same store contents give every
/// call on every identifier the same outcome, and move the store the same
/// way.
pub proof fn lemma_instances_agree(a: RateLimiter, b: RateLimiter, identifier: Seq<char>)
    requires
        a.wf(),
        b.wf(),
        a.is_memory(),
        b.is_memory(),
        a.spec_prefix() == b.spec_prefix(),
        a.spec_ceiling() == b.spec_ceiling(),
        a.spec_window() == b.spec_window(),
        a.spec_store() == b.spec_store(),
    ensures
        ({
            let ka = spec_key(a.spec_prefix(), identifier);
            let kb = spec_key(b.spec_prefix(), identifier);
            &&& ka == kb
            &&& check_step(a.spec_store(), ka, a.spec_window()) == check_step(
                b.spec_store(),
                kb,
                b.spec_window(),
            )
            &&& (check_allowed(a.spec_store(), ka, a.spec_ceiling()) <==> check_allowed(
                b.spec_store(),
                kb,
                b.spec_ceiling(),
            ))
            &&& spec_remaining(a.spec_ceiling(), count_of(a.spec_store(), ka)) == spec_remaining(
                b.spec_ceiling(),
                count_of(b.spec_store(), kb),
            )
            &&& spec_time_to_reset(a.spec_store(), ka) == spec_time_to_reset(b.spec_store(), kb)
        }),
{
}

} // verus!
