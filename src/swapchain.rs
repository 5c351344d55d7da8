use vstd::prelude::*;

use crate::error::{
    error_of_status, is_ok_status, is_stale_status, status_error, status_ok, status_stale,
    DriverStatus, EngineError,
};

verus! {

/// What a swap chain is asked for: the fields the driver negotiates over.
/// Format, color space and presentation mode are the driver's raw values.
#[derive(Debug, Clone, Copy, PartialEq, Eq, Structural)]
pub struct SwapchainConfig {
    pub image_count: u32,
    pub format: i32,
    pub color_space: i32,
    pub width: u32,
    pub height: u32,
    pub present_mode: i32,
}

impl SwapchainConfig {
    /// At least one image, and an extent that is not empty.
    pub open spec fn valid(self) -> bool {
        self.image_count >= 1 && self.width > 0 && self.height > 0
    }

    pub fn is_valid(&self) -> (r: bool)
        ensures
            r == self.valid(),
    {
        self.image_count >= 1 && self.width > 0 && self.height > 0
    }
}

/// Where a chain stands in its life.
#[derive(Debug, Clone, Copy, PartialEq, Eq, Structural)]
pub enum ChainStatus {
    /// The one chain on which new images may be acquired.
    Current,
    /// Replaced by a successor: no new acquisitions, but images already
    /// acquired from it may still be presented.
    Retired,
    /// Its resources are released.
    Destroyed,
}

/// One generation of the swap chain.
pub struct Chain {
    config: SwapchainConfig,
    handle: u64,
    images: Vec<u64>,
    held: Vec<bool>,
    predecessor: Option<usize>,
    status: ChainStatus,
    must_recreate: bool,
}

/// The mathematical picture of a chain.
pub struct ChainView {
    pub config: SwapchainConfig,
    /// The driver's handle for the chain.
    pub handle: u64,
    /// The driver's image handles, in ring order.
    pub images: Seq<u64>,
    /// For each image: acquired by the application and not yet presented.
    pub held: Seq<bool>,
    /// The generation that this one replaced.
    pub predecessor: Option<nat>,
    pub status: ChainStatus,
    /// The driver reported the surface lost or changed: no acquisition
    /// until a successor replaces the chain.
    pub must_recreate: bool,
}

impl View for Chain {
    type V = ChainView;

    closed spec fn view(&self) -> ChainView {
        ChainView {
            config: self.config,
            handle: self.handle,
            images: self.images@,
            held: self.held@,
            predecessor: match self.predecessor {
                Some(p) => Some(p as nat),
                None => None,
            },
            status: self.status,
            must_recreate: self.must_recreate,
        }
    }
}

impl ChainView {
    /// Some image of the chain is acquired and not yet presented.
    pub open spec fn holds_image(self) -> bool {
        exists|j: int| 0 <= j < self.held.len() && #[trigger] self.held[j]
    }
}

/// All generations of swap chains made for one surface, indexed by a
/// counter that only grows. Each generation replaces the one before it.
pub struct SwapchainManager {
    chains: Vec<Chain>,
}

impl View for SwapchainManager {
    type V = Seq<ChainView>;

    closed spec fn view(&self) -> Seq<ChainView> {
        self.chains@.map_values(|c: Chain| c@)
    }
}

/// A chain record that holds together.
pub open spec fn chain_wf(c: ChainView) -> bool {
    &&& c.config.valid()
    &&& c.images.len() >= c.config.image_count
    &&& c.held.len() == c.images.len()
    &&& c.status == ChainStatus::Destroyed ==> !c.holds_image()
}

/// The generations form one line: each names the one before as its
/// predecessor, the last is current and the others are not.
pub open spec fn chains_wf(s: Seq<ChainView>) -> bool {
    forall|i: int|
        0 <= i < s.len() ==> {
            &&& chain_wf(#[trigger] s[i])
            &&& s[i].predecessor == if i == 0 {
                None::<nat>
            } else {
                Some((i - 1) as nat)
            }
            &&& (s[i].status == ChainStatus::Current <==> i == s.len() - 1)
        }
}

/// The current generation, if any chain was made.
pub open spec fn current_of(s: Seq<ChainView>) -> Option<nat> {
    if s.len() == 0 {
        None
    } else {
        Some((s.len() - 1) as nat)
    }
}

/// A new chain may be made with this configuration and predecessor.
pub open spec fn create_allowed(s: Seq<ChainView>, cfg: SwapchainConfig, pred: Option<usize>) -> bool {
    &&& cfg.valid()
    &&& match pred {
        Some(p) => current_of(s) == Some(p as nat),
        None => current_of(s) is None,
    }
}

/// The error a request to create a chain is refused with.
pub open spec fn create_error(s: Seq<ChainView>, cfg: SwapchainConfig) -> EngineError {
    if !cfg.valid() {
        EngineError::DeviceError
    } else {
        EngineError::WrongPredecessor
    }
}

/// A new image may be acquired from chain `id`.
pub open spec fn acquire_allowed(s: Seq<ChainView>, id: int) -> bool {
    0 <= id < s.len() && s[id].status == ChainStatus::Current && !s[id].must_recreate
}

/// The error a request to acquire from chain `id` is refused with.
pub open spec fn acquire_error(s: Seq<ChainView>, id: int) -> EngineError {
    if 0 <= id < s.len() && s[id].status == ChainStatus::Current {
        EngineError::ChainOutOfDate
    } else {
        EngineError::RetiredChain
    }
}

/// The chain a successful creation appends, with no image held.
pub open spec fn fresh_chain(
    cfg: SwapchainConfig,
    handle: u64,
    images: Seq<u64>,
    pred: Option<usize>,
) -> ChainView {
    ChainView {
        config: cfg,
        handle,
        images,
        held: Seq::new(images.len(), |j: int| false),
        predecessor: match pred {
            Some(p) => Some(p as nat),
            None => None,
        },
        status: ChainStatus::Current,
        must_recreate: false,
    }
}

/// The chains after a successful creation: the predecessor retired and
/// the new chain appended.
pub open spec fn after_create(
    s: Seq<ChainView>,
    cfg: SwapchainConfig,
    handle: u64,
    images: Seq<u64>,
    pred: Option<usize>,
) -> Seq<ChainView> {
    let retired = match pred {
        Some(p) => s.update(p as int, ChainView { status: ChainStatus::Retired, ..s[p as int] }),
        None => s,
    };
    retired.push(fresh_chain(cfg, handle, images, pred))
}

/// Chain `id` with image `j` marked held or not.
pub open spec fn with_held(s: Seq<ChainView>, id: int, j: int, v: bool) -> Seq<ChainView> {
    s.update(id, ChainView { held: s[id].held.update(j, v), ..s[id] })
}

/// Chain `id` marked as needing a successor.
pub open spec fn with_recreate(s: Seq<ChainView>, id: int) -> Seq<ChainView> {
    s.update(id, ChainView { must_recreate: true, ..s[id] })
}

impl SwapchainManager {
    pub open spec fn wf(&self) -> bool {
        chains_wf(self@)
    }

    /// A manager that has made no chain yet.
    pub fn new() -> (r: SwapchainManager)
        ensures
            r.wf(),
            r@ == Seq::<ChainView>::empty(),
    {
        let r = SwapchainManager { chains: Vec::new() };
        assert(r@ =~= Seq::<ChainView>::empty());
        r
    }

    /// How many generations were made.
    pub fn chain_count(&self) -> (r: usize)
        ensures
            r == self@.len(),
    {
        self.chains.len()
    }

    /// The current generation, if any chain was made.
    pub fn current(&self) -> (r: Option<usize>)
        ensures
            r matches Some(i) ==> current_of(self@) == Some(i as nat),
            r is None ==> current_of(self@) is None,
    {
        if self.chains.len() == 0 {
            None
        } else {
            Some(self.chains.len() - 1)
        }
    }

    pub fn status(&self, id: usize) -> (r: ChainStatus)
        requires
            id < self@.len(),
        ensures
            r == self@[id as int].status,
    {
        self.chains[id].status
    }

    pub fn handle(&self, id: usize) -> (r: u64)
        requires
            id < self@.len(),
        ensures
            r == self@[id as int].handle,
    {
        self.chains[id].handle
    }

    /// Checks a request for a new chain before it goes to the driver, and
    /// gives the driver handle of the chain it replaces. An invalid
    /// configuration is refused as the driver would refuse it; a
    /// predecessor other than the current chain is refused too.
    pub fn check_create(&self, cfg: SwapchainConfig, predecessor: Option<usize>) -> (r: Result<
        Option<u64>,
        EngineError,
    >)
        requires
            self.wf(),
        ensures
            r is Ok <==> create_allowed(self@, cfg, predecessor),
            r matches Ok(h) ==> h == match predecessor {
                Some(p) => Some(self@[p as int].handle),
                None => None,
            },
            r matches Err(e) ==> e == create_error(self@, cfg),
    {
        if !cfg.is_valid() {
            return Err(EngineError::DeviceError);
        }
        let cur = self.current();
        match (predecessor, cur) {
            (Some(p), Some(c)) => {
                if p == c {
                    Ok(Some(self.chains[p].handle))
                } else {
                    Err(EngineError::WrongPredecessor)
                }
            },
            (None, None) => Ok(None),
            _ => Err(EngineError::WrongPredecessor),
        }
    }

    /// Records the driver's answer to a request for a new chain. On
    /// success the new chain becomes current and its predecessor is
    /// retired. The driver may give more images than asked for, never
    /// fewer: fewer is a `DeviceError`.
    pub fn register_chain(
        &mut self,
        cfg: SwapchainConfig,
        predecessor: Option<usize>,
        status: DriverStatus,
        handle: u64,
        images: Vec<u64>,
    ) -> (r: Result<usize, EngineError>)
        requires
            old(self).wf(),
            create_allowed(old(self)@, cfg, predecessor),
        ensures
            final(self).wf(),
            r is Ok <==> status_ok(status) && images@.len() >= cfg.image_count,
            r matches Ok(id) ==> id == old(self)@.len() && final(self)@ == after_create(
                old(self)@,
                cfg,
                handle,
                images@,
                predecessor,
            ),
            r is Err ==> final(self)@ == old(self)@,
            !status_ok(status) ==> r == Err::<usize, EngineError>(status_error(status)),
            status_ok(status) && images@.len() < cfg.image_count ==> r == Err::<
                usize,
                EngineError,
            >(EngineError::DeviceError),
    {
        if !is_ok_status(status) {
            return Err(error_of_status(status));
        }
        if images.len() < cfg.image_count as usize {
            return Err(EngineError::DeviceError);
        }
        let ghost s0 = self@;
        let n = images.len();
        let mut held: Vec<bool> = Vec::new();
        let mut j: usize = 0;
        while j < n
            invariant
                j <= n,
                held@ == Seq::new(j as nat, |k: int| false),
            decreases n - j,
        {
            held.push(false);
            j = j + 1;
            assert(held@ =~= Seq::new(j as nat, |k: int| false));
        }
        if let Some(p) = predecessor {
            self.chains[p].status = ChainStatus::Retired;
        }
        let ghost s1 = self@;
        assert(s1 =~= match predecessor {
            Some(p) => s0.update(p as int, ChainView { status: ChainStatus::Retired, ..s0[p as int] }),
            None => s0,
        });
        let id = self.chains.len();
        let c = Chain {
            config: cfg,
            handle,
            images,
            held,
            predecessor,
            status: ChainStatus::Current,
            must_recreate: false,
        };
        self.chains.push(c);
        assert(self@ =~= after_create(s0, cfg, handle, c.images@, predecessor));
        proof {
            let s = self@;
            assert forall|i: int| 0 <= i < s.len() implies {
                &&& chain_wf(#[trigger] s[i])
                &&& s[i].predecessor == if i == 0 {
                    None::<nat>
                } else {
                    Some((i - 1) as nat)
                }
                &&& (s[i].status == ChainStatus::Current <==> i == s.len() - 1)
            } by {
                if i < s0.len() {
                    assert(chain_wf(s0[i]));
                    assert(s[i].held == s0[i].held);
                }
            }
        }
        Ok(id)
    }

    /// The image handles of chain `id`, in ring order: at least as many
    /// as its configuration asked for. Later indexing goes by this count.
    pub fn retrieve_images(&self, id: usize) -> (r: Vec<u64>)
        requires
            self.wf(),
            id < self@.len(),
        ensures
            r@ == self@[id as int].images,
            r@.len() >= self@[id as int].config.image_count,
    {
        assert(chain_wf(self@[id as int]));
        self.chains[id].images.clone()
    }

    /// The driver handle of image `index` of chain `id`.
    pub fn image(&self, id: usize, index: u32) -> (r: u64)
        requires
            self.wf(),
            id < self@.len(),
            index < self@[id as int].held.len(),
        ensures
            r == self@[id as int].images[index as int],
    {
        assert(chain_wf(self@[id as int]));
        self.chains[id].images[index as usize]
    }

    /// Checks a request to acquire an image from chain `id` before it goes
    /// to the driver, and gives the chain's driver handle.
    pub fn check_acquire(&self, id: usize) -> (r: Result<u64, EngineError>)
        requires
            self.wf(),
        ensures
            r is Ok <==> acquire_allowed(self@, id as int),
            r matches Ok(h) ==> h == self@[id as int].handle,
            r matches Err(e) ==> e == acquire_error(self@, id as int),
    {
        if id >= self.chains.len() {
            return Err(EngineError::RetiredChain);
        }
        if self.chains[id].status != ChainStatus::Current {
            return Err(EngineError::RetiredChain);
        }
        if self.chains[id].must_recreate {
            return Err(EngineError::ChainOutOfDate);
        }
        Ok(self.chains[id].handle)
    }
    /// Records the driver's answer to an acquisition from chain `id`. On
    /// success the image is held by the application until it is presented;
    /// the flag says whether the chain was suboptimal. No image ready in
    /// time is `TimedOut` and changes nothing, so the caller may retry.
    /// An out-of-date or lost surface marks the chain for recreation.
    pub fn complete_acquire(&mut self, id: usize, status: DriverStatus, index: u32) -> (r: Result<
        (u32, bool),
        EngineError,
    >)
        requires
            old(self).wf(),
            acquire_allowed(old(self)@, id as int),
        ensures
            final(self).wf(),
            r is Ok <==> status_ok(status) && index < old(self)@[id as int].images.len()
                && !old(self)@[id as int].held[index as int],
            r is Ok ==> r == Ok::<(u32, bool), EngineError>(
                (index, status == DriverStatus::Suboptimal),
            ) && final(self)@ == with_held(old(self)@, id as int, index as int, true),
            r is Err && status_ok(status) ==> r == Err::<(u32, bool), EngineError>(
                EngineError::DeviceError,
            ) && final(self)@ == old(self)@,
            !status_ok(status) ==> r == Err::<(u32, bool), EngineError>(status_error(status)),
            !status_ok(status) && status_stale(status) ==> final(self)@ == with_recreate(
                old(self)@,
                id as int,
            ),
            !status_ok(status) && !status_stale(status) ==> final(self)@ == old(self)@,
    {
        if !is_ok_status(status) {
            if is_stale_status(status) {
                self.chains[id].must_recreate = true;
                assert(self@ =~= with_recreate(old(self)@, id as int));
                proof {
                    assert(chain_wf(old(self)@[id as int]));
                    assert(self@[id as int].held == old(self)@[id as int].held);
                    self.lemma_wf_after_change(old(self)@, id as int);
                }
            }
            return Err(error_of_status(status));
        }
        if (index as usize) >= self.chains[id].held.len() {
            return Err(EngineError::DeviceError);
        }
        if self.chains[id].held[index as usize] {
            return Err(EngineError::DeviceError);
        }
        assert(chain_wf(old(self)@[id as int]));
        self.chains[id].held.set(index as usize, true);
        assert(self@ =~= with_held(old(self)@, id as int, index as int, true));
        proof {
            self.lemma_wf_after_change(old(self)@, id as int);
        }
        Ok((index, status == DriverStatus::Suboptimal))
    }

    /// Records the driver's answer to presenting image `index` of chain
    /// `id`. Whatever the answer, the application no longer holds the
    /// image. An out-of-date or lost surface marks the chain for
    /// recreation; the caller must make a successor before acquiring again.
    pub fn complete_present(&mut self, id: usize, index: u32, status: DriverStatus) -> (r: Result<
        (),
        EngineError,
    >)
        requires
            old(self).wf(),
            id < old(self)@.len(),
            index < old(self)@[id as int].held.len(),
            old(self)@[id as int].held[index as int],
        ensures
            final(self).wf(),
            r is Ok <==> status_ok(status),
            r is Err ==> r == Err::<(), EngineError>(status_error(status)),
            status_stale(status) ==> final(self)@ == with_recreate(
                with_held(old(self)@, id as int, index as int, false),
                id as int,
            ),
            !status_stale(status) ==> final(self)@ == with_held(
                old(self)@,
                id as int,
                index as int,
                false,
            ),
    {
        assert(old(self)@[id as int].status != ChainStatus::Destroyed);
        self.chains[id].held.set(index as usize, false);
        assert(self@ =~= with_held(old(self)@, id as int, index as int, false));
        proof {
            self.lemma_wf_after_change(old(self)@, id as int);
        }
        if is_stale_status(status) {
            let ghost s1 = self@;
            self.chains[id].must_recreate = true;
            assert(self@ =~= with_recreate(s1, id as int));
            proof {
                self.lemma_wf_after_change(s1, id as int);
            }
        }
        if is_ok_status(status) {
            Ok(())
        } else {
            Err(error_of_status(status))
        }
    }

    /// Gives up image `index` of chain `id` without presenting it, after a
    /// failure in the middle of a frame.
    pub fn abandon(&mut self, id: usize, index: u32)
        requires
            old(self).wf(),
            id < old(self)@.len(),
            index < old(self)@[id as int].held.len(),
        ensures
            final(self).wf(),
            final(self)@ == with_held(old(self)@, id as int, index as int, false),
    {
        self.chains[id].held.set(index as usize, false);
        assert(self@ =~= with_held(old(self)@, id as int, index as int, false));
        proof {
            self.lemma_wf_after_change(old(self)@, id as int);
        }
    }

    /// Whether some image of chain `id` is acquired and not yet presented.
    pub fn holds_image(&self, id: usize) -> (r: bool)
        requires
            id < self@.len(),
        ensures
            r == self@[id as int].holds_image(),
    {
        let held = &self.chains[id].held;
        let mut j: usize = 0;
        while j < held.len()
            invariant
                j <= held@.len(),
                held@ == self@[id as int].held,
                forall|k: int| 0 <= k < j ==> !held@[k],
            decreases held@.len() - j,
        {
            if held[j] {
                return true;
            }
            j = j + 1;
        }
        false
    }

    /// Destroys a retired chain whose images are all presented, and gives
    /// its driver handle for release. A chain that is current, already
    /// destroyed, or still holds an image is left alone: `None`.
    pub fn destroy(&mut self, id: usize) -> (r: Option<u64>)
        requires
            old(self).wf(),
        ensures
            final(self).wf(),
            r is Some <==> id < old(self)@.len() && old(self)@[id as int].status
                == ChainStatus::Retired && !old(self)@[id as int].holds_image(),
            r matches Some(h) ==> h == old(self)@[id as int].handle && final(self)@ == old(
                self,
            )@.update(id as int, ChainView { status: ChainStatus::Destroyed, ..old(self)@[id as int] }),
            r is None ==> final(self)@ == old(self)@,
    {
        if id >= self.chains.len() {
            return None;
        }
        if self.chains[id].status != ChainStatus::Retired || self.holds_image(id) {
            return None;
        }
        self.chains[id].status = ChainStatus::Destroyed;
        assert(self@ =~= old(self)@.update(
            id as int,
            ChainView { status: ChainStatus::Destroyed, ..old(self)@[id as int] },
        ));
        proof {
            self.lemma_wf_after_change(old(self)@, id as int);
        }
        Some(self.chains[id].handle)
    }

    /// Changing one chain in a way that keeps its own record whole, its
    /// predecessor, and whether it is current keeps the manager whole.
    proof fn lemma_wf_after_change(&self, s0: Seq<ChainView>, id: int)
        requires
            chains_wf(s0),
            0 <= id < s0.len(),
            self@.len() == s0.len(),
            forall|i: int| 0 <= i < s0.len() && i != id ==> self@[i] == s0[i],
            chain_wf(self@[id]),
            self@[id].predecessor == s0[id].predecessor,
            (self@[id].status == ChainStatus::Current) == (s0[id].status == ChainStatus::Current),
        ensures
            self.wf(),
    {
        let s = self@;
        assert forall|i: int| 0 <= i < s.len() implies {
            &&& chain_wf(#[trigger] s[i])
            &&& s[i].predecessor == if i == 0 {
                None::<nat>
            } else {
                Some((i - 1) as nat)
            }
            &&& (s[i].status == ChainStatus::Current <==> i == s.len() - 1)
        } by {
            assert(chain_wf(s0[i]));
        }
    }
}

/// Every chain the manager holds has at least as many images as its
/// configuration asked for.
pub proof fn lemma_chain_has_requested_images(m: SwapchainManager, id: int)
    requires
        m.wf(),
        0 <= id < m@.len(),
    ensures
        m@[id].images.len() >= m@[id].config.image_count,
{
    assert(chain_wf(m@[id]));
}

/// Making a successor retires its predecessor without destroying it: the
/// images acquired from the predecessor stay held, to be presented.
pub proof fn lemma_recreate_keeps_predecessor(
    s: Seq<ChainView>,
    cfg: SwapchainConfig,
    handle: u64,
    images: Seq<u64>,
    pred: usize,
)
    requires
        chains_wf(s),
        create_allowed(s, cfg, Some(pred)),
        images.len() >= cfg.image_count,
    ensures
        chains_wf(after_create(s, cfg, handle, images, Some(pred))),
        after_create(s, cfg, handle, images, Some(pred))[pred as int].status
            == ChainStatus::Retired,
        after_create(s, cfg, handle, images, Some(pred))[pred as int].held == s[pred as int].held,
        after_create(s, cfg, handle, images, Some(pred))[s.len() as int].predecessor == Some(
            pred as nat,
        ),
{
    let t = after_create(s, cfg, handle, images, Some(pred));
    assert forall|i: int| 0 <= i < t.len() implies {
        &&& chain_wf(#[trigger] t[i])
        &&& t[i].predecessor == if i == 0 {
            None::<nat>
        } else {
            Some((i - 1) as nat)
        }
        &&& (t[i].status == ChainStatus::Current <==> i == t.len() - 1)
    } by {
        if i < s.len() {
            assert(chain_wf(s[i]));
        } else {
            assert(!t[i].holds_image());
        }
    }
}

/// A destroyed chain holds no image: no chain is destroyed while an image
/// acquired from it is still to be presented.
pub proof fn lemma_destroyed_chain_holds_no_image(m: SwapchainManager, id: int)
    requires
        m.wf(),
        0 <= id < m@.len(),
        m@[id].status == ChainStatus::Destroyed,
    ensures
        !m@[id].holds_image(),
{
    assert(chain_wf(m@[id]));
}

/// Once chain `c` is marked for recreation, the only chain that admits an
/// acquisition is a later one, and the generation after `c` names `c` as
/// its predecessor: a successor was made from `c` before any acquisition.
pub proof fn lemma_marked_chain_needs_successor(m: SwapchainManager, c: int, id: int)
    requires
        m.wf(),
        0 <= c < m@.len(),
        m@[c].must_recreate,
        acquire_allowed(m@, id),
    ensures
        c < id,
        m@[c + 1].predecessor == Some(c as nat),
{
    assert(chain_wf(m@[id]) && chain_wf(m@[c]));
    assert(chain_wf(m@[c + 1]));
}

} // verus!
