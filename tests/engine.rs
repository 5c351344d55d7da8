use present_engine::error::{DriverStatus, EngineError};
use present_engine::frame::{Action, Phase, PresentationEngine};
use present_engine::swapchain::{ChainStatus, SwapchainConfig};

fn config(image_count: u32) -> SwapchainConfig {
    SwapchainConfig {
        image_count,
        format: 37,
        color_space: 1000104002,
        width: 100,
        height: 100,
        present_mode: 1,
    }
}

/// Makes a chain on `engine` with the given driver handle and images.
fn make_chain(
    engine: &mut PresentationEngine,
    pred: Option<usize>,
    handle: u64,
    images: Vec<u64>,
) -> usize {
    let cfg = config(3);
    engine.create_swapchain(cfg, pred).unwrap();
    engine
        .swapchain_created(cfg, pred, DriverStatus::Success, handle, images)
        .unwrap()
}

/// Runs one frame on `chain`, the driver choosing image `index`.
fn run_frame(engine: &mut PresentationEngine, chain: usize, index: u32) -> Action {
    match engine.begin_frame(chain, u64::MAX) {
        Action::Acquire { .. } => {}
        other => return other,
    }
    assert_eq!(engine.acquired(DriverStatus::Success, index), Action::WaitFence);
    match engine.image_ready(DriverStatus::Success) {
        Action::RecordAndSubmit { .. } => {}
        other => return other,
    }
    match engine.submitted(DriverStatus::Success) {
        Action::Present { .. } => {}
        other => return other,
    }
    engine.presented(DriverStatus::Success)
}

#[test]
fn two_chains_present_then_pool_runs_out() {
    let mut e = PresentationEngine::new(vec![11, 22]);
    assert_eq!(e.create_swapchain(config(3), None), Ok(None));
    let c0 = e
        .swapchain_created(config(3), None, DriverStatus::Success, 100, vec![1, 2, 3])
        .unwrap();
    assert_eq!(c0, 0);

    assert_eq!(
        e.begin_frame(c0, u64::MAX),
        Action::Acquire { swapchain: 100, timeout: u64::MAX }
    );
    assert_eq!(e.current_phase(), Phase::Acquiring { chain: 0 });
    assert_eq!(e.acquired(DriverStatus::Success, 1), Action::WaitFence);
    assert_eq!(
        e.image_ready(DriverStatus::Success),
        Action::RecordAndSubmit { buffer: 22, image: 2 }
    );
    assert_eq!(
        e.submitted(DriverStatus::Success),
        Action::Present { swapchain: 100, index: 1 }
    );
    assert_eq!(e.presented(DriverStatus::Success), Action::Done);

    assert_eq!(e.create_swapchain(config(3), Some(c0)), Ok(Some(100)));
    let c1 = e
        .swapchain_created(config(3), Some(c0), DriverStatus::Success, 200, vec![4, 5, 6, 7])
        .unwrap();
    assert_eq!(c1, 1);
    assert_eq!(e.swapchains().status(c0), ChainStatus::Retired);
    assert_eq!(e.swapchains().status(c1), ChainStatus::Current);

    assert_eq!(
        e.begin_frame(c1, u64::MAX),
        Action::Acquire { swapchain: 200, timeout: u64::MAX }
    );
    assert_eq!(e.acquired(DriverStatus::Success, 3), Action::WaitFence);
    assert_eq!(
        e.image_ready(DriverStatus::Success),
        Action::RecordAndSubmit { buffer: 11, image: 7 }
    );
    assert_eq!(
        e.submitted(DriverStatus::Success),
        Action::Present { swapchain: 200, index: 3 }
    );
    assert_eq!(e.presented(DriverStatus::Success), Action::Done);

    assert_eq!(e.pool().available(), 0);
    assert_eq!(e.pool().in_flight_count(), 2);
    assert_eq!(e.pool().capacity(), 2);
    assert_eq!(e.begin_frame(c1, u64::MAX), Action::Failed(EngineError::PoolExhausted));
    assert_eq!(e.current_phase(), Phase::Idle);
    assert!(!e.swapchains().holds_image(c1));
}

#[test]
fn zero_timeout_on_unready_chain_times_out() {
    let mut e = PresentationEngine::new(vec![11, 22]);
    let c = make_chain(&mut e, None, 100, vec![1, 2, 3]);
    assert_eq!(e.begin_frame(c, 0), Action::Acquire { swapchain: 100, timeout: 0 });
    assert_eq!(
        e.acquired(DriverStatus::NotReady, 0),
        Action::Failed(EngineError::TimedOut)
    );
    assert_eq!(e.current_phase(), Phase::Idle);
    assert!(!e.swapchains().holds_image(c));
    assert_eq!(e.pool().available(), 2);
    // the same chain may be tried again
    assert_eq!(e.begin_frame(c, 0), Action::Acquire { swapchain: 100, timeout: 0 });
}

#[test]
fn surface_lost_at_present_requires_successor_before_acquire() {
    let mut e = PresentationEngine::new(vec![11, 22]);
    let c0 = make_chain(&mut e, None, 100, vec![1, 2, 3]);
    assert!(matches!(e.begin_frame(c0, u64::MAX), Action::Acquire { .. }));
    assert_eq!(e.acquired(DriverStatus::Success, 0), Action::WaitFence);
    assert!(matches!(e.image_ready(DriverStatus::Success), Action::RecordAndSubmit { .. }));
    assert!(matches!(e.submitted(DriverStatus::Success), Action::Present { .. }));
    assert_eq!(
        e.presented(DriverStatus::SurfaceLost),
        Action::Failed(EngineError::SurfaceLost)
    );
    assert!(!e.swapchains().holds_image(c0));
    assert_eq!(
        e.begin_frame(c0, u64::MAX),
        Action::Failed(EngineError::ChainOutOfDate)
    );
    assert_eq!(e.create_swapchain(config(3), None), Err(EngineError::WrongPredecessor));
    assert_eq!(e.create_swapchain(config(3), Some(c0)), Ok(Some(100)));
    let c1 = make_chain(&mut e, Some(c0), 200, vec![4, 5, 6]);
    assert_eq!(e.begin_frame(c1, u64::MAX), Action::Acquire { swapchain: 200, timeout: u64::MAX });
}

#[test]
fn out_of_date_at_acquire_marks_chain() {
    let mut e = PresentationEngine::new(vec![11]);
    let c0 = make_chain(&mut e, None, 100, vec![1, 2, 3]);
    assert!(matches!(e.begin_frame(c0, 5), Action::Acquire { .. }));
    assert_eq!(
        e.acquired(DriverStatus::OutOfDate, 0),
        Action::Failed(EngineError::ChainOutOfDate)
    );
    assert_eq!(e.begin_frame(c0, 5), Action::Failed(EngineError::ChainOutOfDate));
    assert_eq!(e.pool().available(), 1);
}

#[test]
fn sequence_of_chains_each_presents_once() {
    let mut e = PresentationEngine::new(vec![1, 2, 3, 4]);
    let mut prev: Option<usize> = None;
    for n in 0..4u64 {
        let c = make_chain(&mut e, prev, 100 + n, vec![10, 20, 30]);
        if let Some(p) = prev {
            assert_eq!(e.begin_frame(p, 0), Action::Failed(EngineError::RetiredChain));
            assert_eq!(e.swapchains().status(p), ChainStatus::Retired);
        }
        assert_eq!(run_frame(&mut e, c, (n % 3) as u32), Action::Done);
        assert!(!e.swapchains().holds_image(c));
        assert_eq!(e.pool().available() + e.pool().in_flight_count(), 4);
        prev = Some(c);
    }
    assert_eq!(e.swapchains().chain_count(), 4);
    assert_eq!(e.pool().available(), 0);
}

#[test]
fn released_buffers_allow_more_frames_than_capacity() {
    let mut e = PresentationEngine::new(vec![7]);
    let c = make_chain(&mut e, None, 100, vec![1, 2, 3]);
    for k in 0..5u32 {
        assert_eq!(run_frame(&mut e, c, k % 3), Action::Done);
        assert_eq!(e.release_buffer(0), Some(7));
    }
    assert_eq!(e.release_buffer(0), None);
    assert_eq!(e.pool().available(), 1);
}

#[test]
fn steps_out_of_order_are_refused() {
    let mut e = PresentationEngine::new(vec![1]);
    assert_eq!(e.acquired(DriverStatus::Success, 0), Action::Failed(EngineError::OutOfOrder));
    assert_eq!(e.image_ready(DriverStatus::Success), Action::Failed(EngineError::OutOfOrder));
    assert_eq!(e.submitted(DriverStatus::Success), Action::Failed(EngineError::OutOfOrder));
    assert_eq!(e.presented(DriverStatus::Success), Action::Failed(EngineError::OutOfOrder));
    let c = make_chain(&mut e, None, 100, vec![1, 2, 3]);
    assert!(matches!(e.begin_frame(c, 0), Action::Acquire { .. }));
    assert_eq!(e.begin_frame(c, 0), Action::Failed(EngineError::OutOfOrder));
    assert_eq!(e.create_swapchain(config(3), Some(c)), Err(EngineError::OutOfOrder));
    assert_eq!(
        e.swapchain_created(config(3), Some(c), DriverStatus::Success, 5, vec![1, 2, 3]),
        Err(EngineError::OutOfOrder)
    );
    assert_eq!(e.current_phase(), Phase::Acquiring { chain: c });
}

#[test]
fn unknown_chain_is_refused() {
    let mut e = PresentationEngine::new(vec![1]);
    assert_eq!(e.begin_frame(0, 0), Action::Failed(EngineError::RetiredChain));
    assert_eq!(e.create_swapchain(config(3), Some(0)), Err(EngineError::WrongPredecessor));
}

#[test]
fn invalid_configuration_is_a_device_error() {
    let e = PresentationEngine::new(vec![1]);
    assert_eq!(e.create_swapchain(config(0), None), Err(EngineError::DeviceError));
    let mut flat = config(3);
    flat.height = 0;
    assert_eq!(e.create_swapchain(flat, None), Err(EngineError::DeviceError));
    let mut narrow = config(3);
    narrow.width = 0;
    assert_eq!(e.create_swapchain(narrow, None), Err(EngineError::DeviceError));
}

#[test]
fn driver_refusing_creation_changes_nothing() {
    let mut e = PresentationEngine::new(vec![1]);
    assert_eq!(
        e.swapchain_created(config(3), None, DriverStatus::Failed, 100, vec![]),
        Err(EngineError::DeviceError)
    );
    assert_eq!(
        e.swapchain_created(config(3), None, DriverStatus::SurfaceLost, 100, vec![]),
        Err(EngineError::SurfaceLost)
    );
    assert_eq!(e.swapchains().chain_count(), 0);
}

#[test]
fn fewer_images_than_asked_is_a_device_error() {
    let mut e = PresentationEngine::new(vec![1]);
    assert_eq!(
        e.swapchain_created(config(3), None, DriverStatus::Success, 100, vec![1, 2]),
        Err(EngineError::DeviceError)
    );
    assert_eq!(e.swapchains().chain_count(), 0);
    let c = e
        .swapchain_created(config(3), None, DriverStatus::Suboptimal, 100, vec![1, 2, 3, 4])
        .unwrap();
    assert_eq!(e.swapchains().retrieve_images(c), vec![1, 2, 3, 4]);
    assert_eq!(e.swapchains().handle(c), 100);
    assert_eq!(e.swapchains().current(), Some(c));
}

#[test]
fn acquired_index_out_of_range_is_a_device_error() {
    let mut e = PresentationEngine::new(vec![1]);
    let c = make_chain(&mut e, None, 100, vec![1, 2, 3]);
    assert!(matches!(e.begin_frame(c, 0), Action::Acquire { .. }));
    assert_eq!(
        e.acquired(DriverStatus::Success, 3),
        Action::Failed(EngineError::DeviceError)
    );
    assert_eq!(e.current_phase(), Phase::Idle);
    assert!(!e.swapchains().holds_image(c));
}

#[test]
fn suboptimal_acquire_still_proceeds() {
    let mut e = PresentationEngine::new(vec![1]);
    let c = make_chain(&mut e, None, 100, vec![1, 2, 3]);
    assert!(matches!(e.begin_frame(c, 0), Action::Acquire { .. }));
    assert_eq!(e.acquired(DriverStatus::Suboptimal, 2), Action::WaitFence);
    assert_eq!(e.current_phase(), Phase::AwaitingImage { chain: c, index: 2 });
    assert!(e.swapchains().holds_image(c));
}

#[test]
fn failed_fence_wait_gives_image_up() {
    let mut e = PresentationEngine::new(vec![1]);
    let c = make_chain(&mut e, None, 100, vec![1, 2, 3]);
    assert!(matches!(e.begin_frame(c, 0), Action::Acquire { .. }));
    assert_eq!(e.acquired(DriverStatus::Success, 0), Action::WaitFence);
    assert_eq!(
        e.image_ready(DriverStatus::Failed),
        Action::Failed(EngineError::DeviceError)
    );
    assert!(!e.swapchains().holds_image(c));
    assert_eq!(e.pool().available(), 1);
}

#[test]
fn failed_submit_gives_image_up() {
    let mut e = PresentationEngine::new(vec![1]);
    let c = make_chain(&mut e, None, 100, vec![1, 2, 3]);
    assert!(matches!(e.begin_frame(c, 0), Action::Acquire { .. }));
    assert_eq!(e.acquired(DriverStatus::Success, 0), Action::WaitFence);
    assert_eq!(
        e.image_ready(DriverStatus::Success),
        Action::RecordAndSubmit { buffer: 1, image: 1 }
    );
    assert_eq!(
        e.submitted(DriverStatus::Failed),
        Action::Failed(EngineError::DeviceError)
    );
    assert!(!e.swapchains().holds_image(c));
    assert_eq!(e.current_phase(), Phase::Idle);
}

#[test]
fn out_of_date_present_still_releases_image() {
    let mut e = PresentationEngine::new(vec![1, 2]);
    let c = make_chain(&mut e, None, 100, vec![1, 2, 3]);
    assert!(matches!(e.begin_frame(c, 0), Action::Acquire { .. }));
    assert_eq!(e.acquired(DriverStatus::Success, 0), Action::WaitFence);
    assert!(matches!(e.image_ready(DriverStatus::Success), Action::RecordAndSubmit { .. }));
    assert!(matches!(e.submitted(DriverStatus::Success), Action::Present { .. }));
    assert_eq!(
        e.presented(DriverStatus::OutOfDate),
        Action::Failed(EngineError::ChainOutOfDate)
    );
    assert!(!e.swapchains().holds_image(c));
}

#[test]
fn retired_chain_destroyed_only_after_destroy_asked() {
    let mut e = PresentationEngine::new(vec![1, 2]);
    let c0 = make_chain(&mut e, None, 100, vec![1, 2, 3]);
    assert_eq!(e.destroy_chain(c0), None);
    let c1 = make_chain(&mut e, Some(c0), 200, vec![4, 5, 6]);
    assert_eq!(e.swapchains().status(c0), ChainStatus::Retired);
    assert_eq!(e.destroy_chain(c1), None);
    assert_eq!(e.destroy_chain(c0), Some(100));
    assert_eq!(e.swapchains().status(c0), ChainStatus::Destroyed);
    assert_eq!(e.destroy_chain(c0), None);
    assert_eq!(e.destroy_chain(9), None);
}
