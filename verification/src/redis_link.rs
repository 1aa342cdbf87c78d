//! The boundary to the redis client crate. Everything here is trusted: the
//! functions only move arguments to the one redis call they name and hand
//! its result back, and the limiter's own logic is verified on top of what
//! these items state.

use redis::Commands;
use vstd::prelude::*;

verus! {

/// `redis::Client` as an opaque handle; nothing in this crate looks inside.
#[verifier::external_type_specification]
#[verifier::external_body]
pub struct ExClient(redis::Client);

/// `redis::Connection` as an opaque handle.
#[verifier::external_type_specification]
#[verifier::external_body]
pub struct ExConnection(redis::Connection);

/// `redis::RedisError` as an opaque value, carried inside the limiter's own
/// error type so that callers see the underlying store failure.
#[verifier::external_type_specification]
#[verifier::external_body]
pub struct ExRedisError(redis::RedisError);

/// Whether a piece of text parses as a store target. This is the success
/// condition of `redis::Client::open`, which reads nothing but the URL
/// text, so it is a function of that text alone.
pub uninterp spec fn valid_store_url(url: Seq<char>) -> bool;

/// Relies on `redis::Client::open`: parses the URL and builds a client
/// handle without touching the network; it succeeds exactly when the URL
/// text parses as a store target.
#[verifier::external_body]
pub(crate) fn open_client(url: &str) -> (r: Result<redis::Client, redis::RedisError>)
    ensures
        r is Ok <==> valid_store_url(url@),
{
    redis::Client::open(url)
}

/// Relies on `redis::Client::get_connection`: opens one connection to the
/// server the client was built for.
#[verifier::external_body]
pub(crate) fn open_connection(client: &redis::Client) -> (r: Result<
    redis::Connection,
    redis::RedisError,
>) {
    client.get_connection()
}

/// Relies on `redis::Script::invoke` (EVAL): the server runs the script as
/// one atomic unit. The script increments the counter under the key,
/// attaches the expiry exactly when the increment created the key, and
/// hands back the post-increment counter.
#[verifier::external_body]
pub(crate) fn run_window_script(
    conn: &mut redis::Connection,
    key: &str,
    window_secs: u64,
) -> (r: Result<u64, redis::RedisError>) {
    redis::Script::new(
        "local c = redis.call('INCR', KEYS[1]) \
         if c == 1 then redis.call('EXPIRE', KEYS[1], ARGV[1]) end \
         return c",
    ).key(key).arg(window_secs).invoke(conn)
}

/// Relies on `redis::Commands::get`: reads the counter under the key, `None`
/// when the key is absent.
#[verifier::external_body]
pub(crate) fn fetch_count(conn: &mut redis::Connection, key: &str) -> (r: Result<
    Option<u64>,
    redis::RedisError,
>) {
    conn.get(key)
}

/// Relies on `redis::Commands::ttl`: -2 when the key is absent, -1 when it
/// carries no expiry, else the remaining seconds, never below -2.
#[verifier::external_body]
pub(crate) fn fetch_ttl(conn: &mut redis::Connection, key: &str) -> (r: Result<
    i64,
    redis::RedisError,
>)
    ensures
        r matches Ok(t) ==> t >= -2,
{
    conn.ttl(key)
}

} // verus!
