//! A presentation engine: the bookkeeping and decisions that hand swap-chain
//! images back and forth between an application and a presentation engine.
//!
//! The graphics driver itself is not called here. Each operation is split in
//! two: the library says what to ask of the driver, the caller asks it, and
//! the library decides what the answer means.
pub mod error;
pub mod pool;
pub mod swapchain;
pub mod frame;
