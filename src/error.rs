use vstd::prelude::*;

verus! {

/// What went wrong in an operation of the engine.
#[derive(Debug, Clone, Copy, PartialEq, Eq, Structural)]
pub enum EngineError {
    /// The driver refused a request, or answered in a way it must not.
    DeviceError,
    /// The surface changed incompatibly; the chain must be recreated.
    ChainOutOfDate,
    /// The surface was lost; the chain must be recreated.
    SurfaceLost,
    /// No image became available before the deadline.
    TimedOut,
    /// No command buffer is free.
    PoolExhausted,
    /// The chain named is not the current one.
    RetiredChain,
    /// A new chain did not name the current chain as its predecessor.
    WrongPredecessor,
    /// The operation does not fit the phase the frame is in.
    OutOfOrder,
}

/// The outcome of a driver call, as the caller reports it back.
#[derive(Debug, Clone, Copy, PartialEq, Eq, Structural)]
pub enum DriverStatus {
    Success,
    /// Success, but the chain no longer matches the surface exactly.
    Suboptimal,
    /// No image was ready (a zero timeout) or the timeout elapsed.
    NotReady,
    OutOfDate,
    SurfaceLost,
    /// Any other failure.
    Failed,
}

/// The error that a failed driver status stands for.
pub open spec fn status_error(s: DriverStatus) -> EngineError {
    match s {
        DriverStatus::NotReady => EngineError::TimedOut,
        DriverStatus::OutOfDate => EngineError::ChainOutOfDate,
        DriverStatus::SurfaceLost => EngineError::SurfaceLost,
        _ => EngineError::DeviceError,
    }
}

/// Whether a status reports success (possibly suboptimal).
pub open spec fn status_ok(s: DriverStatus) -> bool {
    s == DriverStatus::Success || s == DriverStatus::Suboptimal
}

/// Whether a status asks for the chain to be recreated.
pub open spec fn status_stale(s: DriverStatus) -> bool {
    s == DriverStatus::OutOfDate || s == DriverStatus::SurfaceLost
}

pub fn error_of_status(s: DriverStatus) -> (r: EngineError)
    ensures
        r == status_error(s),
{
    match s {
        DriverStatus::NotReady => EngineError::TimedOut,
        DriverStatus::OutOfDate => EngineError::ChainOutOfDate,
        DriverStatus::SurfaceLost => EngineError::SurfaceLost,
        _ => EngineError::DeviceError,
    }
}

pub fn is_ok_status(s: DriverStatus) -> (r: bool)
    ensures
        r == status_ok(s),
{
    match s {
        DriverStatus::Success | DriverStatus::Suboptimal => true,
        _ => false,
    }
}

pub fn is_stale_status(s: DriverStatus) -> (r: bool)
    ensures
        r == status_stale(s),
{
    match s {
        DriverStatus::OutOfDate | DriverStatus::SurfaceLost => true,
        _ => false,
    }
}

} // verus!
