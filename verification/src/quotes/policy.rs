//! The decisions the connection layer takes: how large the pool of
//! connections is, and what the heartbeat does at each tick.
use vstd::prelude::*;
use crate::quotes::base_consts::{QuotesError, DEFAULT_RETRY_TIMES, POOL_MAX};

verus! {

/// Capacity of the pool and how many idle connections it keeps, for a
/// number of servers and the machine's parallelism when known: as many
/// connections as servers up to the pool's maximum, and at most half the
/// parallelism (at least one) of them idle.
pub open spec fn spec_pool_sizes(servers: int, parallelism: Option<usize>) -> (int, int) {
    let cap = if servers < POOL_MAX { servers } else { POOL_MAX as int };
    let idle = match parallelism {
        Some(p) => {
            let half = if p / 2 < 1 { 1 } else { p / 2 };
            if cap > half { half as int } else { cap }
        },
        None => cap,
    };
    (cap, idle)
}

/// The pool's capacity and idle count; no server at all is `NoServers`.
pub fn pool_sizes(servers: usize, parallelism: Option<usize>) -> (r: Result<(usize, usize), QuotesError>)
    ensures
        servers == 0 ==> r == Err::<(usize, usize), QuotesError>(QuotesError::NoServers),
        servers > 0 ==> r is Ok && (r.unwrap().0 as int, r.unwrap().1 as int) == spec_pool_sizes(servers as int, parallelism),
{
    if servers == 0 {
        return Err(QuotesError::NoServers);
    }
    let cap = if servers < POOL_MAX { servers } else { POOL_MAX };
    let mut idle = cap;
    match parallelism {
        Some(p) => {
            let half = if p / 2 < 1 { 1 } else { p / 2 };
            if idle > half {
                idle = half;
            }
        },
        None => {},
    }
    Ok((cap, idle))
}

/// What the heartbeat does next.
#[derive(Debug, Clone, Copy, PartialEq, Eq, Structural)]
pub enum HeartbeatAction {
    /// Leave the loop.
    Stop,
    /// Sleep until the next tick.
    Wait,
    /// Send a request to keep the connection alive.
    Ping,
}

/// At a tick: stop when asked to or when the connection is closed, ping
/// when the connection has been quiet for too long, wait otherwise.
pub fn heartbeat_tick(stop_requested: bool, closed: bool, timed_out: bool) -> (r: HeartbeatAction)
    ensures
        stop_requested || closed ==> r == HeartbeatAction::Stop,
        !stop_requested && !closed && timed_out ==> r == HeartbeatAction::Ping,
        !stop_requested && !closed && !timed_out ==> r == HeartbeatAction::Wait,
{
    if stop_requested || closed {
        HeartbeatAction::Stop
    } else if timed_out {
        HeartbeatAction::Ping
    } else {
        HeartbeatAction::Wait
    }
}

/// After a ping: a failed one closes the connection and ends the loop.
pub fn heartbeat_after_ping(ok: bool) -> (r: HeartbeatAction)
    ensures
        ok ==> r == HeartbeatAction::Wait,
        !ok ==> r == HeartbeatAction::Stop,
{
    if ok {
        HeartbeatAction::Wait
    } else {
        HeartbeatAction::Stop
    }
}

/// Connection timeout, in seconds, of a client configured without one.
pub const DEFAULT_CONNECTION_TIMEOUT_SECS: u64 = 10;
/// Read timeout, in seconds, of a client configured without one.
pub const DEFAULT_READ_TIMEOUT_SECS: u64 = 5;
/// Write timeout, in seconds, of a client configured without one.
pub const DEFAULT_WRITE_TIMEOUT_SECS: u64 = 5;
/// Interval, in seconds, of the pinger after a reset to less than a millisecond.
pub const DEFAULT_PING_INTERVAL_SECS: u64 = 10;
/// How long, in seconds, a pooled connection may stay idle.
pub const POOL_IDLE_TIMEOUT_SECS: u64 = 30;
/// Securities in a full page of the security list.
pub const SECURITY_LIST_PAGE: u16 = 1000;
/// Age, in seconds, after which the cached security list is read again.
pub const CACHE_MAX_AGE_SECS: u64 = 86400;

/// Nanoseconds in a second.
pub const NANOS_PER_SEC: u128 = 1_000_000_000;

/// The retries of a client: the configured number, or the default when it
/// is zero.
pub fn retry_times(configured: usize) -> (r: usize)
    ensures
        configured == 0 ==> r == DEFAULT_RETRY_TIMES,
        configured != 0 ==> r == configured,
{
    if configured == 0 { DEFAULT_RETRY_TIMES } else { configured }
}

/// A timeout of a client, in nanoseconds: the configured one, or the given
/// default number of seconds when it is zero.
pub fn timeout_nanos(configured: u128, default_secs: u64) -> (r: u128)
    ensures
        configured == 0 ==> r == default_secs * NANOS_PER_SEC,
        configured != 0 ==> r == configured,
{
    if configured == 0 {
        assert(default_secs * NANOS_PER_SEC <= u64::MAX * NANOS_PER_SEC) by (nonlinear_arith)
            requires default_secs <= u64::MAX;
        (default_secs as u128) * NANOS_PER_SEC
    } else {
        configured
    }
}

/// The pinger's interval after a reset, in nanoseconds: the requested one,
/// or the default when less than a millisecond was asked for.
pub fn ping_interval_nanos(requested: u128) -> (r: u128)
    ensures
        requested < 1_000_000 ==> r == DEFAULT_PING_INTERVAL_SECS * NANOS_PER_SEC,
        requested >= 1_000_000 ==> r == requested,
{
    if requested < 1_000_000 {
        (DEFAULT_PING_INTERVAL_SECS as u128) * NANOS_PER_SEC
    } else {
        requested
    }
}

/// What the pool does with a connection it takes from its idle list.
#[derive(Debug, Clone, Copy, PartialEq, Eq, Structural)]
pub enum IdleAction {
    /// Close it and look at the next one.
    Discard,
    /// Check it with a ping first.
    Ping,
    /// Hand it to the caller.
    Hand,
}

/// An idle connection idle for longer than the pool's timeout is discarded;
/// another one is pinged when the pool has a ping, handed out otherwise.
pub fn idle_conn_action(idle_nanos: u128, can_ping: bool) -> (r: IdleAction)
    ensures
        idle_nanos > POOL_IDLE_TIMEOUT_SECS * NANOS_PER_SEC ==> r == IdleAction::Discard,
        idle_nanos <= POOL_IDLE_TIMEOUT_SECS * NANOS_PER_SEC && can_ping ==> r == IdleAction::Ping,
        idle_nanos <= POOL_IDLE_TIMEOUT_SECS * NANOS_PER_SEC && !can_ping ==> r == IdleAction::Hand,
{
    if idle_nanos > (POOL_IDLE_TIMEOUT_SECS as u128) * NANOS_PER_SEC {
        IdleAction::Discard
    } else if can_ping {
        IdleAction::Ping
    } else {
        IdleAction::Hand
    }
}

/// After the ping of an idle connection: handed out when it answered,
/// discarded otherwise.
pub fn after_idle_ping(ok: bool) -> (r: IdleAction)
    ensures
        ok ==> r == IdleAction::Hand,
        !ok ==> r == IdleAction::Discard,
{
    if ok { IdleAction::Hand } else { IdleAction::Discard }
}

/// What the pool does with a connection handed back to it.
#[derive(Debug, Clone, Copy, PartialEq, Eq, Structural)]
pub enum ReturnAction {
    /// Keep it among the idle connections.
    Keep,
    /// Close it.
    Close,
}

/// A connection handed back is closed when the pool is closed or already
/// holds as many idle connections as it may, kept otherwise.
pub fn return_action(pool_closed: bool, idle: usize, max_idle: usize) -> (r: ReturnAction)
    ensures
        !pool_closed && idle < max_idle ==> r == ReturnAction::Keep,
        pool_closed || idle >= max_idle ==> r == ReturnAction::Close,
{
    if !pool_closed && idle < max_idle { ReturnAction::Keep } else { ReturnAction::Close }
}

/// Where the next page of the security list starts: nowhere after a page
/// shorter than a full one, right after this page otherwise.
pub fn next_list_start(start: u16, count: u16) -> (r: Option<u16>)
    requires
        count >= SECURITY_LIST_PAGE ==> start + count <= u16::MAX,
    ensures
        count < SECURITY_LIST_PAGE ==> r == None::<u16>,
        count >= SECURITY_LIST_PAGE ==> r == Some((start + count) as u16),
{
    if count < SECURITY_LIST_PAGE {
        None
    } else {
        Some(start + count)
    }
}

/// Whether the security list is read again from the servers: when there is
/// no cache file, or when the file is older than a day. A file whose age
/// cannot be told is kept.
pub fn cache_needs_refresh(exists: bool, age_nanos: Option<u128>) -> (r: bool)
    ensures
        !exists ==> r,
        exists ==> r == match age_nanos {
            Some(a) => a > CACHE_MAX_AGE_SECS * NANOS_PER_SEC,
            None => false,
        },
{
    if !exists {
        return true;
    }
    match age_nanos {
        Some(a) => a > (CACHE_MAX_AGE_SECS as u128) * NANOS_PER_SEC,
        None => false,
    }
}

} // verus!
