//! The limiter itself: a key prefix, a request ceiling and a window length
//! over a store backend. The backend is either a redis client, behind the
//! trusted boundary, or the in-memory store, against which every operation
//! is specified exactly.

use crate::redis_link;
use crate::redis_link::valid_store_url;
use crate::store::{advance_model, check_count, check_step, count_of, MemoryStore, StoreModel};
use vstd::prelude::*;
use vstd::string::StringExecFns;

verus! {

/// Why a call failed: the store could not be reached or answered with an
/// error, or the identifier has spent its ceiling for the current window.
/// Exceeding the limit is an expected outcome, not a store failure, so the
/// two are distinct variants.
#[derive(Debug)]
pub enum RateLimiterError {
    Redis(redis::RedisError),
    RateLimitExceeded,
}

enum StoreBackend {
    Redis { client: redis::Client },
    Memory { store: MemoryStore },
}

/// A fixed-window rate limiter. It holds no counter state of its own: all
/// counters live in the store, under keys `prefix:identifier`, so any number
/// of limiters over the same store and prefix behave as one.
pub struct RateLimiter {
    store: StoreBackend,
    key_prefix: String,
    max_requests: u64,
    window_secs: u64,
}

/// The store key a limiter with this prefix uses for an identifier.
pub open spec fn spec_key(prefix: Seq<char>, identifier: Seq<char>) -> Seq<char> {
    prefix + ":"@ + identifier
}

/// What `remaining` answers when the window's counter stands at `count`:
/// the calls left before the ceiling, never below zero.
pub open spec fn spec_remaining(ceiling: u64, count: u64) -> u64 {
    if count >= ceiling {
        0
    } else {
        (ceiling - count) as u64
    }
}

/// Whether the check that moves the counter of `key` succeeds: the counter
/// after the increment must not pass the ceiling.
pub open spec fn check_allowed(m: StoreModel, key: Seq<char>, ceiling: u64) -> bool {
    check_count(m, key) <= ceiling
}

/// What `time_to_reset` answers over the store model: the seconds until the
/// identifier's window ends, or -1 when no window is open.
pub open spec fn spec_time_to_reset(m: StoreModel, key: Seq<char>) -> int {
    if m.entries.contains_key(key) {
        m.entries[key].deadline - m.now
    } else {
        -1
    }
}

/// The verdict of a check once the store has answered with the
/// post-increment counter: the call passes exactly when the counter has not
/// passed the ceiling; every increment beyond it is refused.
pub fn check_verdict(current: u64, ceiling: u64) -> (r: Result<(), RateLimiterError>)
    ensures
        r is Ok <==> current <= ceiling,
        r is Err ==> r->Err_0 is RateLimitExceeded,
{
    if current > ceiling {
        Err(RateLimiterError::RateLimitExceeded)
    } else {
        Ok(())
    }
}

/// What `remaining` answers once the store has answered with the counter
/// value (0 when the store had none).
pub fn remaining_from_count(ceiling: u64, count: u64) -> (r: u64)
    ensures
        r == spec_remaining(ceiling, count),
{
    if count >= ceiling {
        0
    } else {
        ceiling - count
    }
}

/// What `remaining` answers for the store's whole reply to the counter
/// read: an absent key counts as zero requests seen.
pub fn remaining_from_reply(ceiling: u64, reply: Option<u64>) -> (r: u64)
    ensures
        r == spec_remaining(
            ceiling,
            (match reply {
                Some(c) => c,
                None => 0u64,
            }),
        ),
{
    match reply {
        Some(count) => remaining_from_count(ceiling, count),
        None => remaining_from_count(ceiling, 0),
    }
}

/// What `time_to_reset` answers once the store has answered with a time to
/// live: the store's "no such key" answer of -2 becomes the limiter's "no
/// open window" answer of -1; everything else passes through.
pub fn reset_from_ttl(ttl: i64) -> (r: i64)
    ensures
        r == (if ttl == -2 {
            -1int
        } else {
            ttl as int
        }),
{
    if ttl == -2 {
        -1
    } else {
        ttl
    }
}

impl RateLimiter {
    /// The key prefix this limiter namespaces its counters under.
    pub closed spec fn spec_prefix(&self) -> Seq<char> {
        self.key_prefix@
    }

    /// The ceiling: how many checks one identifier may pass per window.
    pub closed spec fn spec_ceiling(&self) -> u64 {
        self.max_requests
    }

    /// The window length in whole seconds.
    pub closed spec fn spec_window(&self) -> u64 {
        self.window_secs
    }

    /// Whether this limiter runs against the in-memory store.
    pub closed spec fn is_memory(&self) -> bool {
        self.store is Memory
    }

    /// The model of the in-memory store this limiter runs against.
    pub closed spec fn spec_store(&self) -> StoreModel
        recommends
            self.is_memory(),
    {
        self.store->store@
    }

    /// A limiter is well formed when its window is at least one second, fits
    /// a time to live, and its store is well formed.
    pub closed spec fn wf(&self) -> bool {
        &&& 1 <= self.window_secs <= i64::MAX
        &&& (self.store matches StoreBackend::Memory { store } ==> store.wf())
    }

    /// Builds a limiter over a redis server. The URL is parsed here, and
    /// construction succeeds exactly when it parses as a store target; the
    /// network is only touched by later calls, so no store key is read or
    /// written here. A window of zero seconds is rounded up to one second,
    /// so that the store can hold an expiry for it.
    pub fn new(
        redis_url: &str,
        key_prefix: &str,
        max_requests: u64,
        window_secs: u64,
    ) -> (r: Result<RateLimiter, RateLimiterError>)
        requires
            window_secs <= i64::MAX,
        ensures
            r is Ok <==> valid_store_url(redis_url@),
            r matches Ok(l) ==> ({
                &&& l.wf()
                &&& !l.is_memory()
                &&& l.spec_prefix() == key_prefix@
                &&& l.spec_ceiling() == max_requests
                &&& l.spec_window() == (if window_secs == 0 {
                    1u64
                } else {
                    window_secs
                })
            }),
            r matches Err(e) ==> e is Redis,
    {
        match redis_link::open_client(redis_url) {
            Ok(client) => Ok(
                RateLimiter {
                    store: StoreBackend::Redis { client },
                    key_prefix: key_prefix.to_owned(),
                    max_requests,
                    window_secs: if window_secs == 0 {
                        1
                    } else {
                        window_secs
                    },
                },
            ),
            Err(e) => Err(RateLimiterError::Redis(e)),
        }
    }

    /// Builds a limiter over an in-memory store, for callers that inject the
    /// store instead of reaching a server. A window of zero seconds is
    /// rounded up to one second, as in `new`.
    pub fn with_memory_store(
        store: MemoryStore,
        key_prefix: &str,
        max_requests: u64,
        window_secs: u64,
    ) -> (r: RateLimiter)
        requires
            store.wf(),
            window_secs <= i64::MAX,
        ensures
            r.wf(),
            r.is_memory(),
            r.spec_store() == store@,
            r.spec_prefix() == key_prefix@,
            r.spec_ceiling() == max_requests,
            r.spec_window() == (if window_secs == 0 {
                1u64
            } else {
                window_secs
            }),
    {
        RateLimiter {
            store: StoreBackend::Memory { store },
            key_prefix: key_prefix.to_owned(),
            max_requests,
            window_secs: if window_secs == 0 {
                1
            } else {
                window_secs
            },
        }
    }

    /// Hands the in-memory store back, so another limiter can be built over
    /// the same counters; `None` for a limiter over redis, whose shared
    /// state stays on the server.
    pub fn into_store(self) -> (r: Option<MemoryStore>)
        ensures
            self.is_memory() ==> (r matches Some(s) && s@ == self.spec_store() && (self.wf()
                ==> s.wf())),
            !self.is_memory() ==> r is None,
    {
        match self.store {
            StoreBackend::Memory { store } => Some(store),
            StoreBackend::Redis { client: _ } => None,
        }
    }

    fn derive_key(&self, identifier: &str) -> (r: String)
        ensures
            r@ == spec_key(self.spec_prefix(), identifier@),
    {
        let mut key = self.key_prefix.clone();
        key.append(":");
        key.append(identifier);
        key
    }

    /// One request by `identifier`: atomically increment its counter in the
    /// store, open a fresh window when none was live, and pass exactly when
    /// the counter has not passed the ceiling. The increment happens whether
    /// or not the call passes: refused calls are counted, by design, so that
    /// concurrent bursts are ordered by the store's one atomic step and
    /// never race a separate read.
    pub fn check(&mut self, identifier: &str) -> (r: Result<(), RateLimiterError>)
        requires
            old(self).wf(),
        ensures
            final(self).wf(),
            final(self).spec_prefix() == old(self).spec_prefix(),
            final(self).spec_ceiling() == old(self).spec_ceiling(),
            final(self).spec_window() == old(self).spec_window(),
            final(self).is_memory() == old(self).is_memory(),
            old(self).is_memory() ==> ({
                let key = spec_key(old(self).spec_prefix(), identifier@);
                let m0 = old(self).spec_store();
                &&& final(self).spec_store() == check_step(m0, key, old(self).spec_window())
                &&& (r is Ok <==> check_allowed(m0, key, old(self).spec_ceiling()))
                &&& (r is Err ==> r->Err_0 is RateLimitExceeded)
            }),
            !old(self).is_memory() ==> *final(self) == *old(self) && (r is Err ==> (
            r->Err_0 is RateLimitExceeded || r->Err_0 is Redis)),
    {
        let key = self.derive_key(identifier);
        let ceiling = self.max_requests;
        let window = self.window_secs;
        match &mut self.store {
            StoreBackend::Redis { client } => {
                let mut conn = match redis_link::open_connection(client) {
                    Ok(c) => c,
                    Err(e) => { return Err(RateLimiterError::Redis(e)) },
                };
                match redis_link::run_window_script(&mut conn, key.as_str(), window) {
                    Ok(current) => check_verdict(current, ceiling),
                    Err(e) => Err(RateLimiterError::Redis(e)),
                }
            },
            StoreBackend::Memory { store } => {
                let current = store.incr_and_expire(&key, window);
                check_verdict(current, ceiling)
            },
        }
    }

    /// How many checks `identifier` has left in the current window: the
    /// ceiling minus the counter the store holds, never below zero. A plain
    /// read; the value is advisory under concurrent checks.
    pub fn get_remaining(&self, identifier: &str) -> (r: Result<u64, RateLimiterError>)
        requires
            self.wf(),
        ensures
            self.is_memory() ==> (r matches Ok(n) && n == spec_remaining(
                self.spec_ceiling(),
                count_of(self.spec_store(), spec_key(self.spec_prefix(), identifier@)),
            )),
            r matches Ok(n) ==> n <= self.spec_ceiling(),
            r matches Err(e) ==> e is Redis,
    {
        let key = self.derive_key(identifier);
        let ceiling = self.max_requests;
        match &self.store {
            StoreBackend::Redis { client } => {
                let mut conn = match redis_link::open_connection(client) {
                    Ok(c) => c,
                    Err(e) => { return Err(RateLimiterError::Redis(e)) },
                };
                match redis_link::fetch_count(&mut conn, key.as_str()) {
                    Ok(reply) => Ok(remaining_from_reply(ceiling, reply)),
                    Err(e) => Err(RateLimiterError::Redis(e)),
                }
            },
            StoreBackend::Memory { store } => {
                Ok(remaining_from_reply(ceiling, store.get(&key)))
            },
        }
    }

    /// How many whole seconds until `identifier`'s window ends, or -1 when
    /// no window is open (also for a counter the store holds without an
    /// expiry, a state the limiter itself never creates). A plain read.
    pub fn get_time_remaining(&self, identifier: &str) -> (r: Result<i64, RateLimiterError>)
        requires
            self.wf(),
        ensures
            self.is_memory() ==> (r matches Ok(t) && t == spec_time_to_reset(
                self.spec_store(),
                spec_key(self.spec_prefix(), identifier@),
            )),
            r matches Ok(t) ==> t >= -1,
            r matches Err(e) ==> e is Redis,
    {
        let key = self.derive_key(identifier);
        match &self.store {
            StoreBackend::Redis { client } => {
                let mut conn = match redis_link::open_connection(client) {
                    Ok(c) => c,
                    Err(e) => { return Err(RateLimiterError::Redis(e)) },
                };
                match redis_link::fetch_ttl(&mut conn, key.as_str()) {
                    Ok(ttl) => Ok(reset_from_ttl(ttl)),
                    Err(e) => Err(RateLimiterError::Redis(e)),
                }
            },
            StoreBackend::Memory { store } => {
                proof {
                    store.lemma_model_wf();
                }
                let ttl = store.get_ttl(&key);
                Ok(reset_from_ttl(ttl))
            },
        }
    }

    /// Moves the in-memory store's clock forward by `secs` seconds, ending
    /// the windows whose deadline is reached. Over redis the clock is the
    /// server's own, and nothing happens.
    pub fn advance_clock(&mut self, secs: u64)
        requires
            old(self).wf(),
        ensures
            final(self).wf(),
            final(self).spec_prefix() == old(self).spec_prefix(),
            final(self).spec_ceiling() == old(self).spec_ceiling(),
            final(self).spec_window() == old(self).spec_window(),
            final(self).is_memory() == old(self).is_memory(),
            old(self).is_memory() ==> final(self).spec_store() == advance_model(
                old(self).spec_store(),
                secs,
            ),
            !old(self).is_memory() ==> *final(self) == *old(self),
    {
        match &mut self.store {
            StoreBackend::Redis { client: _ } => {
            },
            StoreBackend::Memory { store } => {
                store.advance(secs);
            },
        }
    }
}

} // verus!
