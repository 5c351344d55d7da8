use vstd::prelude::*;

use crate::error::{
    error_of_status, is_ok_status, status_error, status_ok, status_stale, DriverStatus,
    EngineError,
};
use crate::pool::CommandPool;
use crate::swapchain::{
    acquire_allowed, acquire_error, after_create, chain_wf, chains_wf, create_allowed, create_error, with_held,
    with_recreate, ChainStatus, ChainView, SwapchainConfig, SwapchainManager,
};

verus! {

/// Where the frame in progress stands.
#[derive(Debug, Clone, Copy, PartialEq, Eq, Structural)]
pub enum Phase {
    /// No frame in progress.
    Idle,
    /// An image of `chain` was asked for.
    Acquiring { chain: usize },
    /// Image `index` was acquired; its fence has not yet signaled.
    AwaitingImage { chain: usize, index: u32 },
    /// `buffer` holds the transition of image `index` and was sent.
    Submitting { chain: usize, index: u32, buffer: u64 },
    /// Image `index` was handed to the presentation engine.
    Presenting { chain: usize, index: u32, buffer: u64 },
}

/// What the caller is to do next with the driver, and report back.
#[derive(Debug, Clone, Copy, PartialEq, Eq, Structural)]
pub enum Action {
    /// Acquire an image of `swapchain`, arming a fresh fence; report with
    /// `acquired`.
    Acquire { swapchain: u64, timeout: u64 },
    /// Wait on that fence; report with `image_ready`.
    WaitFence,
    /// Record begin, a barrier moving `image` to the presentable layout,
    /// and end into `buffer` (end even if the barrier fails), then submit
    /// it; report with `submitted`.
    RecordAndSubmit { buffer: u64, image: u64 },
    /// Present image `index` of `swapchain`; report with `presented`.
    Present { swapchain: u64, index: u32 },
    /// The frame was presented.
    Done,
    /// The frame ended with this error, and no image is left held.
    Failed(EngineError),
}

/// The presentation engine: the swap-chain generations, the command
/// buffers, and the frame in progress.
///
/// A frame takes one command buffer and does not give it back: the caller
/// returns it with `release_buffer` once the driver confirms that its
/// submission completed. Without that, the pool runs out after as many
/// frames as it has buffers, and the next frame fails with `PoolExhausted`
/// before it acquires anything.
pub struct PresentationEngine {
    swapchains: SwapchainManager,
    pool: CommandPool,
    phase: Phase,
}

/// An image that the application holds.
pub open spec fn image_held(s: Seq<ChainView>, c: usize, i: u32) -> bool {
    c < s.len() && i < s[c as int].held.len() && s[c as int].held[i as int]
}

/// The phase agrees with the chains: what the frame holds is held there.
pub open spec fn phase_consistent(p: Phase, s: Seq<ChainView>) -> bool {
    match p {
        Phase::Idle => true,
        Phase::Acquiring { chain } => acquire_allowed(s, chain as int),
        Phase::AwaitingImage { chain, index } => image_held(s, chain, index),
        Phase::Submitting { chain, index, .. } => image_held(s, chain, index),
        Phase::Presenting { chain, index, .. } => image_held(s, chain, index),
    }
}

impl PresentationEngine {
    pub closed spec fn chains(&self) -> Seq<ChainView> {
        self.swapchains@
    }

    pub closed spec fn pool_free(&self) -> Seq<u64> {
        self.pool.spec_free()
    }

    pub closed spec fn pool_in_flight(&self) -> Seq<u64> {
        self.pool.spec_in_flight()
    }

    pub closed spec fn pool_capacity(&self) -> nat {
        self.pool.spec_capacity()
    }

    pub closed spec fn phase(&self) -> Phase {
        self.phase
    }

    pub closed spec fn wf(&self) -> bool {
        &&& self.swapchains.wf()
        &&& self.pool.wf()
        &&& phase_consistent(self.phase, self.swapchains@)
    }

    /// An engine with no chain yet, and the given command buffers free.
    pub fn new(buffers: Vec<u64>) -> (r: PresentationEngine)
        ensures
            r.wf(),
            r.chains() == Seq::<ChainView>::empty(),
            r.pool_free() == buffers@,
            r.pool_in_flight() == Seq::<u64>::empty(),
            r.pool_capacity() == buffers@.len(),
            r.phase() == Phase::Idle,
    {
        PresentationEngine {
            swapchains: SwapchainManager::new(),
            pool: CommandPool::new(buffers),
            phase: Phase::Idle,
        }
    }

    pub fn swapchains(&self) -> (r: &SwapchainManager)
        requires
            self.wf(),
        ensures
            r.wf(),
            r@ == self.chains(),
    {
        &self.swapchains
    }

    pub fn pool(&self) -> (r: &CommandPool)
        requires
            self.wf(),
        ensures
            r.wf(),
            r.spec_free() == self.pool_free(),
            r.spec_in_flight() == self.pool_in_flight(),
            r.spec_capacity() == self.pool_capacity(),
    {
        &self.pool
    }

    pub fn current_phase(&self) -> (r: Phase)
        ensures
            r == self.phase(),
    {
        self.phase
    }
    /// The pool is as it was in `o`.
    pub open spec fn same_pool(&self, o: &PresentationEngine) -> bool {
        &&& self.pool_free() == o.pool_free()
        &&& self.pool_in_flight() == o.pool_in_flight()
        &&& self.pool_capacity() == o.pool_capacity()
    }

    /// Nothing changed from `o`.
    pub open spec fn unchanged(&self, o: &PresentationEngine) -> bool {
        &&& self.chains() == o.chains()
        &&& self.same_pool(o)
        &&& self.phase() == o.phase()
    }

    /// Checks a request for a new swap chain, and gives the driver handle
    /// of the chain it replaces, to be named as the old chain. Chains are
    /// made only between frames.
    pub fn create_swapchain(&self, cfg: SwapchainConfig, predecessor: Option<usize>) -> (r: Result<
        Option<u64>,
        EngineError,
    >)
        requires
            self.wf(),
        ensures
            self.phase() != Phase::Idle ==> r == Err::<Option<u64>, EngineError>(
                EngineError::OutOfOrder,
            ),
            self.phase() == Phase::Idle ==> (r is Ok <==> create_allowed(
                self.chains(),
                cfg,
                predecessor,
            )),
            self.phase() == Phase::Idle && r is Err ==> r == Err::<Option<u64>, EngineError>(
                create_error(self.chains(), cfg),
            ),
            r matches Ok(h) ==> h == match predecessor {
                Some(p) => Some(self.chains()[p as int].handle),
                None => None,
            },
    {
        if self.phase != Phase::Idle {
            return Err(EngineError::OutOfOrder);
        }
        self.swapchains.check_create(cfg, predecessor)
    }

    /// Records the driver's answer to the request that `create_swapchain`
    /// checked: `status`, the new chain's handle and its image handles.
    /// On success the new generation is current and its predecessor
    /// retired, but not destroyed.
    pub fn swapchain_created(
        &mut self,
        cfg: SwapchainConfig,
        predecessor: Option<usize>,
        status: DriverStatus,
        handle: u64,
        images: Vec<u64>,
    ) -> (r: Result<usize, EngineError>)
        requires
            old(self).wf(),
        ensures
            final(self).wf(),
            final(self).same_pool(old(self)),
            final(self).phase() == old(self).phase(),
            old(self).phase() != Phase::Idle ==> r == Err::<usize, EngineError>(
                EngineError::OutOfOrder,
            ),
            old(self).phase() == Phase::Idle && !create_allowed(old(self).chains(), cfg, predecessor)
                ==> r == Err::<usize, EngineError>(create_error(old(self).chains(), cfg)),
            r is Ok <==> old(self).phase() == Phase::Idle && create_allowed(
                old(self).chains(),
                cfg,
                predecessor,
            ) && status_ok(status) && images@.len() >= cfg.image_count,
            r matches Ok(id) ==> id == old(self).chains().len() && final(self).chains()
                == after_create(old(self).chains(), cfg, handle, images@, predecessor),
            r is Err ==> final(self).chains() == old(self).chains(),
            old(self).phase() == Phase::Idle && create_allowed(old(self).chains(), cfg, predecessor)
                && !status_ok(status) ==> r == Err::<usize, EngineError>(status_error(status)),
            old(self).phase() == Phase::Idle && create_allowed(old(self).chains(), cfg, predecessor)
                && status_ok(status) && images@.len() < cfg.image_count ==> r == Err::<
                usize,
                EngineError,
            >(EngineError::DeviceError),
    {
        if self.phase != Phase::Idle {
            return Err(EngineError::OutOfOrder);
        }
        match self.swapchains.check_create(cfg, predecessor) {
            Err(e) => Err(e),
            Ok(_) => self.swapchains.register_chain(cfg, predecessor, status, handle, images),
        }
    }

    /// Starts a frame on chain `chain`. A frame starts only when a command
    /// buffer is free, so that running out never leaves an image held, and
    /// only on the current chain while it is not marked for recreation.
    pub fn begin_frame(&mut self, chain: usize, timeout: u64) -> (r: Action)
        requires
            old(self).wf(),
        ensures
            final(self).wf(),
            final(self).chains() == old(self).chains(),
            final(self).same_pool(old(self)),
            old(self).phase() != Phase::Idle ==> r == Action::Failed(EngineError::OutOfOrder)
                && final(self).phase() == old(self).phase(),
            old(self).phase() == Phase::Idle && old(self).pool_free().len() == 0 ==> r
                == Action::Failed(EngineError::PoolExhausted) && final(self).phase() == Phase::Idle,
            old(self).phase() == Phase::Idle && old(self).pool_free().len() > 0 && !acquire_allowed(
                old(self).chains(),
                chain as int,
            ) ==> r == Action::Failed(acquire_error(old(self).chains(), chain as int))
                && final(self).phase() == Phase::Idle,
            old(self).phase() == Phase::Idle && old(self).pool_free().len() > 0 && acquire_allowed(
                old(self).chains(),
                chain as int,
            ) ==> r == (Action::Acquire {
                swapchain: old(self).chains()[chain as int].handle,
                timeout,
            }) && final(self).phase() == (Phase::Acquiring { chain }),
    {
        if self.phase != Phase::Idle {
            return Action::Failed(EngineError::OutOfOrder);
        }
        if self.pool.available() == 0 {
            return Action::Failed(EngineError::PoolExhausted);
        }
        match self.swapchains.check_acquire(chain) {
            Err(e) => Action::Failed(e),
            Ok(h) => {
                self.phase = Phase::Acquiring { chain };
                Action::Acquire { swapchain: h, timeout }
            },
        }
    }

    /// Takes the driver's answer to the acquisition: `status` and the
    /// index it chose. Success means only that an index was chosen: the
    /// image is written once its fence signals. No image in time is
    /// `TimedOut` and leaves the chain as it was, so the frame may be
    /// started again.
    pub fn acquired(&mut self, status: DriverStatus, index: u32) -> (r: Action)
        requires
            old(self).wf(),
        ensures
            final(self).wf(),
            final(self).same_pool(old(self)),
            !(old(self).phase() is Acquiring) ==> r == Action::Failed(EngineError::OutOfOrder)
                && final(self).unchanged(old(self)),
            old(self).phase() matches Phase::Acquiring { chain } ==> {
                let s = old(self).chains();
                let c = chain as int;
                &&& status_ok(status) && index < s[c].images.len() && !s[c].held[index as int]
                    ==> r == Action::WaitFence && final(self).phase() == (Phase::AwaitingImage {
                    chain,
                    index,
                }) && final(self).chains() == with_held(s, c, index as int, true)
                &&& status_ok(status) && !(index < s[c].images.len() && !s[c].held[index as int])
                    ==> r == Action::Failed(EngineError::DeviceError) && final(self).phase()
                    == Phase::Idle && final(self).chains() == s
                &&& !status_ok(status) ==> r == Action::Failed(status_error(status))
                    && final(self).phase() == Phase::Idle
                &&& !status_ok(status) && status_stale(status) ==> final(self).chains()
                    == with_recreate(s, c)
                &&& !status_ok(status) && !status_stale(status) ==> final(self).chains() == s
                &&& status == DriverStatus::NotReady ==> r == Action::Failed(EngineError::TimedOut)
                    && final(self).phase() == Phase::Idle && final(self).chains() == s
            },
    {
        let chain = match self.phase {
            Phase::Acquiring { chain } => chain,
            _ => {
                return Action::Failed(EngineError::OutOfOrder);
            },
        };
        assert(chain_wf(self.chains()[chain as int]));
        match self.swapchains.complete_acquire(chain, status, index) {
            Ok((i, _)) => {
                self.phase = Phase::AwaitingImage { chain, index: i };
                Action::WaitFence
            },
            Err(e) => {
                self.phase = Phase::Idle;
                Action::Failed(e)
            },
        }
    }
    /// Takes the outcome of the wait on the acquire fence. Once the image
    /// is ready, a command buffer is taken from the pool and the caller is
    /// asked to record the transition into it. On any failure the image is
    /// given up, never left held.
    pub fn image_ready(&mut self, status: DriverStatus) -> (r: Action)
        requires
            old(self).wf(),
        ensures
            final(self).wf(),
            final(self).pool_capacity() == old(self).pool_capacity(),
            !(old(self).phase() is AwaitingImage) ==> r == Action::Failed(EngineError::OutOfOrder)
                && final(self).unchanged(old(self)),
            old(self).phase() matches Phase::AwaitingImage { chain, index } ==> {
                let s = old(self).chains();
                let free = old(self).pool_free();
                let b = free.last();
                &&& status_ok(status) && free.len() > 0 ==> r == (Action::RecordAndSubmit {
                    buffer: b,
                    image: s[chain as int].images[index as int],
                }) && final(self).phase() == (Phase::Submitting { chain, index, buffer: b })
                    && final(self).chains() == s && final(self).pool_free() == free.drop_last()
                    && final(self).pool_in_flight() == old(self).pool_in_flight().push(b)
                &&& status_ok(status) && free.len() == 0 ==> r == Action::Failed(
                    EngineError::PoolExhausted,
                )
                &&& !status_ok(status) ==> r == Action::Failed(status_error(status))
                &&& !(status_ok(status) && free.len() > 0) ==> final(self).phase() == Phase::Idle
                    && final(self).chains() == with_held(s, chain as int, index as int, false)
                    && final(self).same_pool(old(self))
            },
    {
        let (chain, index) = match self.phase {
            Phase::AwaitingImage { chain, index } => (chain, index),
            _ => {
                return Action::Failed(EngineError::OutOfOrder);
            },
        };
        if !is_ok_status(status) {
            self.swapchains.abandon(chain, index);
            self.phase = Phase::Idle;
            return Action::Failed(error_of_status(status));
        }
        match self.pool.take() {
            Err(e) => {
                self.swapchains.abandon(chain, index);
                self.phase = Phase::Idle;
                Action::Failed(e)
            },
            Ok(b) => {
                let image = self.swapchains.image(chain, index);
                self.phase = Phase::Submitting { chain, index, buffer: b };
                Action::RecordAndSubmit { buffer: b, image }
            },
        }
    }

    /// Takes the outcome of recording and submitting the transition. On
    /// success the caller is asked to present the image; on failure the
    /// image is given up.
    pub fn submitted(&mut self, status: DriverStatus) -> (r: Action)
        requires
            old(self).wf(),
        ensures
            final(self).wf(),
            final(self).same_pool(old(self)),
            !(old(self).phase() is Submitting) ==> r == Action::Failed(EngineError::OutOfOrder)
                && final(self).unchanged(old(self)),
            old(self).phase() matches Phase::Submitting { chain, index, buffer } ==> {
                let s = old(self).chains();
                &&& status_ok(status) ==> r == (Action::Present {
                    swapchain: s[chain as int].handle,
                    index,
                }) && final(self).phase() == (Phase::Presenting { chain, index, buffer })
                    && final(self).chains() == s
                &&& !status_ok(status) ==> r == Action::Failed(status_error(status))
                    && final(self).phase() == Phase::Idle && final(self).chains() == with_held(
                    s,
                    chain as int,
                    index as int,
                    false,
                )
            },
    {
        let (chain, index, buffer) = match self.phase {
            Phase::Submitting { chain, index, buffer } => (chain, index, buffer),
            _ => {
                return Action::Failed(EngineError::OutOfOrder);
            },
        };
        if !is_ok_status(status) {
            self.swapchains.abandon(chain, index);
            self.phase = Phase::Idle;
            return Action::Failed(error_of_status(status));
        }
        let h = self.swapchains.handle(chain);
        self.phase = Phase::Presenting { chain, index, buffer };
        Action::Present { swapchain: h, index }
    }

    /// Takes the outcome of the present. Whatever it is, the image goes
    /// back to the presentation engine and the frame ends. An out-of-date
    /// or lost surface marks the chain: the next frame needs a successor
    /// made with this chain as its predecessor.
    pub fn presented(&mut self, status: DriverStatus) -> (r: Action)
        requires
            old(self).wf(),
        ensures
            final(self).wf(),
            final(self).same_pool(old(self)),
            !(old(self).phase() is Presenting) ==> r == Action::Failed(EngineError::OutOfOrder)
                && final(self).unchanged(old(self)),
            old(self).phase() matches Phase::Presenting { chain, index, .. } ==> {
                let s = old(self).chains();
                let released = with_held(s, chain as int, index as int, false);
                &&& final(self).phase() == Phase::Idle
                &&& status_ok(status) ==> r == Action::Done
                &&& !status_ok(status) ==> r == Action::Failed(status_error(status))
                &&& status_stale(status) ==> final(self).chains() == with_recreate(
                    released,
                    chain as int,
                )
                &&& !status_stale(status) ==> final(self).chains() == released
            },
    {
        let (chain, index) = match self.phase {
            Phase::Presenting { chain, index, .. } => (chain, index),
            _ => {
                return Action::Failed(EngineError::OutOfOrder);
            },
        };
        let r = self.swapchains.complete_present(chain, index, status);
        self.phase = Phase::Idle;
        match r {
            Ok(()) => Action::Done,
            Err(e) => Action::Failed(e),
        }
    }

    /// Gives the command buffer at position `pos` of the in-flight list back
    /// to the pool, once the driver confirmed that its submission completed.
    /// `None` when there is no such position.
    pub fn release_buffer(&mut self, pos: usize) -> (r: Option<u64>)
        requires
            old(self).wf(),
        ensures
            final(self).wf(),
            final(self).chains() == old(self).chains(),
            final(self).phase() == old(self).phase(),
            final(self).pool_capacity() == old(self).pool_capacity(),
            r is Some <==> pos < old(self).pool_in_flight().len(),
            r matches Some(b) ==> b == old(self).pool_in_flight()[pos as int]
                && final(self).pool_in_flight() == old(self).pool_in_flight().remove(pos as int)
                && final(self).pool_free() == old(self).pool_free().push(b),
            r is None ==> final(self).same_pool(old(self)),
    {
        if pos >= self.pool.in_flight_count() {
            return None;
        }
        Some(self.pool.release(pos))
    }

    /// Destroys retired chain `id` once none of its images is held, and
    /// gives its driver handle for release; `None` leaves all as it was.
    pub fn destroy_chain(&mut self, id: usize) -> (r: Option<u64>)
        requires
            old(self).wf(),
        ensures
            final(self).wf(),
            final(self).same_pool(old(self)),
            final(self).phase() == old(self).phase(),
            r is Some <==> id < old(self).chains().len() && old(self).chains()[id as int].status
                == ChainStatus::Retired && !old(self).chains()[id as int].holds_image(),
            r matches Some(h) ==> h == old(self).chains()[id as int].handle && final(self).chains()
                == old(self).chains().update(
                id as int,
                ChainView { status: ChainStatus::Destroyed, ..old(self).chains()[id as int] },
            ),
            r is None ==> final(self).chains() == old(self).chains(),
    {
        self.swapchains.destroy(id)
    }
}

impl PresentationEngine {
    /// However many frames run, the buffers free and in flight together
    /// stay exactly the pool's capacity: none is lost or made.
    pub proof fn lemma_pool_bounded(&self)
        requires
            self.wf(),
        ensures
            self.pool_free().len() + self.pool_in_flight().len() == self.pool_capacity(),
    {
        self.pool.lemma_bounded();
    }
}

/// A frame that acquires an image and presents it leaves the chains as
/// they were: repeating frames builds up no held image on any chain.
pub proof fn lemma_frame_round_restores_chains(s: Seq<ChainView>, c: int, i: int)
    requires
        chains_wf(s),
        acquire_allowed(s, c),
        0 <= i < s[c].held.len(),
        !s[c].held[i],
    ensures
        with_held(with_held(s, c, i, true), c, i, false) == s,
{
    let t = with_held(with_held(s, c, i, true), c, i, false);
    assert(t[c].held =~= s[c].held);
    assert(t =~= s);
}

} // verus!
