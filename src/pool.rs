use vstd::prelude::*;

use crate::error::EngineError;

verus! {

/// A fixed set of command buffers, each either free or taken for a frame
/// in flight. Buffers are named by the driver's handle values.
pub struct CommandPool {
    capacity: usize,
    free: Vec<u64>,
    in_flight: Vec<u64>,
}

impl CommandPool {
    pub closed spec fn spec_capacity(&self) -> nat {
        self.capacity as nat
    }

    /// The buffers ready to be taken; the last one is taken first.
    pub closed spec fn spec_free(&self) -> Seq<u64> {
        self.free@
    }

    /// The buffers taken and not yet given back, in the order taken.
    pub closed spec fn spec_in_flight(&self) -> Seq<u64> {
        self.in_flight@
    }

    /// No buffer is gained or lost: free and taken make up the capacity.
    pub closed spec fn wf(&self) -> bool {
        self.free@.len() + self.in_flight@.len() == self.capacity
    }

    /// Free and taken buffers together make up the capacity.
    pub proof fn lemma_bounded(&self)
        requires
            self.wf(),
        ensures
            self.spec_free().len() + self.spec_in_flight().len() == self.spec_capacity(),
    {
    }

    /// A pool holding the given buffers, all free.
    pub fn new(buffers: Vec<u64>) -> (r: CommandPool)
        ensures
            r.wf(),
            r.spec_capacity() == buffers@.len(),
            r.spec_free() == buffers@,
            r.spec_in_flight() == Seq::<u64>::empty(),
    {
        let capacity = buffers.len();
        CommandPool { capacity, free: buffers, in_flight: Vec::new() }
    }

    pub fn capacity(&self) -> (r: usize)
        ensures
            r == self.spec_capacity(),
    {
        self.capacity
    }

    /// How many buffers can be taken now.
    pub fn available(&self) -> (r: usize)
        ensures
            r == self.spec_free().len(),
    {
        self.free.len()
    }

    pub fn in_flight_count(&self) -> (r: usize)
        ensures
            r == self.spec_in_flight().len(),
    {
        self.in_flight.len()
    }

    /// Takes a free buffer for a frame; fails with `PoolExhausted` when
    /// every buffer is in flight.
    pub fn take(&mut self) -> (r: Result<u64, EngineError>)
        requires
            old(self).wf(),
        ensures
            final(self).wf(),
            final(self).spec_capacity() == old(self).spec_capacity(),
            old(self).spec_free().len() == 0 <==> r is Err,
            r is Err ==> r == Err::<u64, EngineError>(EngineError::PoolExhausted) && *final(self)
                == *old(self),
            r matches Ok(c) ==> {
                &&& c == old(self).spec_free().last()
                &&& final(self).spec_free() == old(self).spec_free().drop_last()
                &&& final(self).spec_in_flight() == old(self).spec_in_flight().push(c)
            },
    {
        if self.free.len() == 0 {
            return Err(EngineError::PoolExhausted);
        }
        let c = self.free.pop().unwrap();
        self.in_flight.push(c);
        Ok(c)
    }

    /// Gives the buffer at position `pos` of the in-flight list back, once
    /// the driver has confirmed that its submission completed.
    pub fn release(&mut self, pos: usize) -> (r: u64)
        requires
            old(self).wf(),
            pos < old(self).spec_in_flight().len(),
        ensures
            final(self).wf(),
            final(self).spec_capacity() == old(self).spec_capacity(),
            r == old(self).spec_in_flight()[pos as int],
            final(self).spec_in_flight() == old(self).spec_in_flight().remove(pos as int),
            final(self).spec_free() == old(self).spec_free().push(r),
    {
        let c = self.in_flight.remove(pos);
        self.free.push(c);
        c
    }
}

} // verus!
