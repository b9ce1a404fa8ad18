//! Error taxonomy of the pool.

use vstd::prelude::*;

verus! {

/// Every failure the pool can surface to its caller.
///
/// - `ConnectError`: the transport address is malformed, or the transport
///   worker could not be bootstrapped; fatal to that one connection's
///   initialization, never to the whole pool.
/// - `TransportError`: a channel-level failure during a send; recorded as a
///   breaker failure and surfaced, never retried by the pool itself.
/// - `TimeoutError`: no response within the deadline; treated like
///   `TransportError` for breaker purposes.
/// - `Unavailable`: the chosen connection has no attached transport, or its
///   breaker denies the request right now.
/// - `NoAvailableConnection`: no connection in the pool is currently
///   eligible for selection.
/// - `BootstrapTimeout`: an isolated execution context failed to hand its
///   worker handle back in time; fatal to that init attempt only.
#[derive(Clone, Copy, Debug, PartialEq, Eq, Structural)]
pub enum PoolError {
    ConnectError,
    TransportError,
    TimeoutError,
    Unavailable,
    NoAvailableConnection,
    BootstrapTimeout,
}

impl PoolError {
    /// A short, stable description, usable by callers that print errors.
    pub fn describe(&self) -> (r: &'static str)
        ensures
            r@.len() > 0,
    {
        proof {
            reveal_strlit("connect error");
            reveal_strlit("transport error");
            reveal_strlit("timeout");
            reveal_strlit("unavailable");
            reveal_strlit("no available connection");
            reveal_strlit("bootstrap timeout");
        }
        match self {
            PoolError::ConnectError => "connect error",
            PoolError::TransportError => "transport error",
            PoolError::TimeoutError => "timeout",
            PoolError::Unavailable => "unavailable",
            PoolError::NoAvailableConnection => "no available connection",
            PoolError::BootstrapTimeout => "bootstrap timeout",
        }
    }
}

} // verus!
