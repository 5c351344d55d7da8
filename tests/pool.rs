use present_engine::error::{
    error_of_status, is_ok_status, is_stale_status, DriverStatus, EngineError,
};
use present_engine::pool::CommandPool;

#[test]
fn take_hands_out_last_buffer_first() {
    let mut p = CommandPool::new(vec![5, 6]);
    assert_eq!(p.capacity(), 2);
    assert_eq!(p.take(), Ok(6));
    assert_eq!(p.take(), Ok(5));
    assert_eq!(p.take(), Err(EngineError::PoolExhausted));
    assert_eq!(p.available(), 0);
    assert_eq!(p.in_flight_count(), 2);
}

#[test]
fn release_returns_buffer_to_pool() {
    let mut p = CommandPool::new(vec![5, 6, 7]);
    assert_eq!(p.take(), Ok(7));
    assert_eq!(p.take(), Ok(6));
    assert_eq!(p.release(0), 7);
    assert_eq!(p.available(), 2);
    assert_eq!(p.in_flight_count(), 1);
    assert_eq!(p.take(), Ok(7));
}

#[test]
fn empty_pool_is_exhausted() {
    let mut p = CommandPool::new(vec![]);
    assert_eq!(p.take(), Err(EngineError::PoolExhausted));
}

#[test]
fn statuses_map_to_errors() {
    assert_eq!(error_of_status(DriverStatus::NotReady), EngineError::TimedOut);
    assert_eq!(error_of_status(DriverStatus::OutOfDate), EngineError::ChainOutOfDate);
    assert_eq!(error_of_status(DriverStatus::SurfaceLost), EngineError::SurfaceLost);
    assert_eq!(error_of_status(DriverStatus::Failed), EngineError::DeviceError);
    assert!(is_ok_status(DriverStatus::Suboptimal));
    assert!(!is_ok_status(DriverStatus::NotReady));
    assert!(is_stale_status(DriverStatus::SurfaceLost));
    assert!(!is_stale_status(DriverStatus::Failed));
}
