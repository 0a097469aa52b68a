use vstd::prelude::*;

verus! {

/// Why a request could not be parsed.
#[derive(Debug, Clone, Copy, PartialEq, Eq, Structural)]
pub enum Error {
    InvalidHeader,
    InvalidRequestLine,
    InvalidMethod,
    InvalidVersion,
    MissingRequestLine,
    MissingSeparator,
}

pub type Result<T> = core::result::Result<T, Error>;

/// Why the worker pool refused an operation.
#[derive(Debug, Clone, Copy, PartialEq, Eq, Structural)]
pub enum PoolError {
    /// A pool was asked for with no workers.
    InvalidPoolSize,
    /// A job was submitted after the pool was closed.
    PoolClosed,
    /// No worker is left to take jobs from the queue.
    QueueDisconnected,
}

} // verus!
