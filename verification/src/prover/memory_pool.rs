//! Reusable buffers for proof generation: a bounded pool of values, a
//! per-batch store of proofs, and a serialization buffer that is cleared on
//! each use.
use vstd::prelude::*;
use std::collections::VecDeque;

verus! {

/// A bounded pool of reusable values, handed out oldest first.
pub struct MemoryPool<T> {
    pool: VecDeque<T>,
    max_size: usize,
}

impl<T> MemoryPool<T> {
    /// The pooled values, oldest first.
    pub closed spec fn items(&self) -> Seq<T> {
        self.pool@
    }

    /// The most values the pool keeps.
    pub closed spec fn capacity(&self) -> usize {
        self.max_size
    }

    /// Whether the pool holds no more values than its capacity.
    pub open spec fn within_capacity(&self) -> bool {
        self.items().len() <= self.capacity()
    }

    /// An empty pool that keeps up to `max_size` values.
    pub fn new(max_size: usize) -> (r: Self)
        ensures
            r.items() == Seq::<T>::empty(),
            r.capacity() == max_size,
            r.within_capacity(),
    {
        MemoryPool { pool: VecDeque::with_capacity(max_size), max_size }
    }

    /// Takes the oldest pooled value, if any.
    pub fn acquire(&mut self) -> (r: Option<T>)
        ensures
            final(self).capacity() == old(self).capacity(),
            old(self).items().len() == 0 ==> r is None && final(self).items() == old(self).items(),
            old(self).items().len() > 0 ==> r == Some(old(self).items()[0])
                && final(self).items() == old(self).items().drop_first(),
            old(self).within_capacity() ==> final(self).within_capacity(),
    {
        let r = self.pool.pop_front();
        proof {
            if old(self).pool@.len() > 0 {
                assert(self.pool@ =~= old(self).pool@.drop_first());
            }
        }
        r
    }

    /// Gives a value back; it is kept when the pool has room and dropped
    /// otherwise.
    pub fn release(&mut self, item: T)
        ensures
            final(self).capacity() == old(self).capacity(),
            old(self).items().len() < old(self).capacity() ==> final(self).items() == old(self).items().push(item),
            old(self).items().len() >= old(self).capacity() ==> final(self).items() == old(self).items(),
            old(self).within_capacity() ==> final(self).within_capacity(),
    {
        if self.pool.len() < self.max_size {
            self.pool.push_back(item);
        }
    }
}

/// Per-batch store of serialized proofs and scratch buffers.
pub struct BatchArena {
    buffers: Vec<Vec<u8>>,
    proofs: Vec<Vec<u8>>,
}

impl BatchArena {
    /// The stored proofs, in the order they were stored.
    pub closed spec fn stored_proofs(&self) -> Seq<Vec<u8>> {
        self.proofs@
    }

    /// The scratch buffers handed out so far.
    pub closed spec fn buffer_count(&self) -> nat {
        self.buffers@.len()
    }

    /// An empty arena.
    pub fn new() -> (r: Self)
        ensures
            r.stored_proofs() == Seq::<Vec<u8>>::empty(),
            r.buffer_count() == 0,
    {
        BatchArena { buffers: Vec::new(), proofs: Vec::new() }
    }

    /// Adds an empty scratch buffer and hands it out for writing.
    pub fn get_buffer(&mut self) -> (r: &mut Vec<u8>)
        ensures
            r@ == Seq::<u8>::empty(),
            final(self).stored_proofs() == old(self).stored_proofs(),
            final(self).buffer_count() == old(self).buffer_count() + 1,
    {
        self.buffers.push(Vec::new());
        let last = self.buffers.len() - 1;
        &mut self.buffers[last]
    }

    /// Stores a proof.
    pub fn store_proof(&mut self, proof: Vec<u8>)
        ensures
            final(self).stored_proofs() == old(self).stored_proofs().push(proof),
            final(self).buffer_count() == old(self).buffer_count(),
    {
        self.proofs.push(proof);
    }

    /// Takes all stored proofs out, leaving none.
    pub fn take_proofs(&mut self) -> (r: Vec<Vec<u8>>)
        ensures
            r@ == old(self).stored_proofs(),
            final(self).stored_proofs() == Seq::<Vec<u8>>::empty(),
            final(self).buffer_count() == old(self).buffer_count(),
    {
        let mut taken: Vec<Vec<u8>> = Vec::new();
        std::mem::swap(&mut taken, &mut self.proofs);
        taken
    }
}

impl Default for BatchArena {
    /// An empty arena.
    fn default() -> (r: Self)
        ensures
            r.stored_proofs() == Seq::<Vec<u8>>::empty(),
            r.buffer_count() == 0,
    {
        Self::new()
    }
}

/// A serialization buffer that starts with room for 4 KiB and is cleared on
/// each use.
pub struct SerializationBuffer {
    buffer: Vec<u8>,
}

impl SerializationBuffer {
    /// The bytes in the buffer.
    pub closed spec fn contents(&self) -> Seq<u8> {
        self.buffer@
    }

    /// An empty buffer.
    pub fn new() -> (r: Self)
        ensures
            r.contents() == Seq::<u8>::empty(),
    {
        SerializationBuffer { buffer: Vec::with_capacity(4096) }
    }

    /// Clears the buffer and hands it out for writing.
    pub fn get_mut(&mut self) -> (r: &mut Vec<u8>)
        ensures
            r@ == Seq::<u8>::empty(),
            final(self).contents() == final(r)@,
    {
        self.buffer.clear();
        &mut self.buffer
    }

    /// The bytes in the buffer.
    pub fn as_slice(&self) -> (r: &[u8])
        ensures
            r@ == self.contents(),
    {
        self.buffer.as_slice()
    }
}

impl Default for SerializationBuffer {
    /// An empty buffer.
    fn default() -> (r: Self)
        ensures
            r.contents() == Seq::<u8>::empty(),
    {
        Self::new()
    }
}

} // verus!
