//! The byte ring over storage of its own.

use crate::log_ring::{in_order, newest, write_into};
use crate::wire::push_bytes;
use vstd::prelude::*;
use vstd::slice::slice_subrange;

verus! {

/// A byte ring that owns its storage.
pub struct Ring {
    data: Vec<u8>,
    /// Place of the next write.
    head: usize,
    /// Set once the ring has wrapped; before that, `[0..head]` holds its bytes.
    wrapped: bool,
}

impl Ring {
    /// The bytes in the ring, in the order they came.
    pub closed spec fn view(&self) -> Seq<u8> {
        in_order(self.data@, self.head as int, self.wrapped)
    }

    /// How many bytes the ring holds at most.
    pub closed spec fn room(&self) -> nat {
        self.data@.len()
    }

    /// The ring's invariant.
    pub closed spec fn wf(&self) -> bool {
        self.head < self.data@.len()
    }

    /// What the ring holds fits it, and there is room for something.
    pub proof fn contents_fit(&self)
        requires
            self.wf(),
        ensures
            self@.len() <= self.room(),
            self.room() > 0,
    {
    }

    /// An empty ring of the given capacity.
    pub fn new(capacity: usize) -> (r: Ring)
        requires
            capacity > 0,
        ensures
            r.wf(),
            r@ == Seq::<u8>::empty(),
            r.room() == capacity,
    {
        let mut data: Vec<u8> = Vec::new();
        while data.len() < capacity
            invariant
                data@.len() <= capacity,
            decreases capacity - data@.len(),
        {
            data.push(0);
        }
        let r = Ring { data, head: 0, wrapped: false };
        assert(r@ =~= Seq::<u8>::empty());
        r
    }

    /// How many bytes the ring holds at most.
    pub fn capacity(&self) -> (n: usize)
        ensures
            n == self.room(),
    {
        self.data.len()
    }

    /// Appends `bytes`; the oldest bytes make room.
    pub fn write(&mut self, bytes: &[u8])
        requires
            old(self).wf(),
        ensures
            final(self).wf(),
            final(self).room() == old(self).room(),
            final(self)@ == newest(old(self)@ + bytes@, old(self).room()),
    {
        let (head, wrapped) = write_into(
            self.data.as_mut_slice(),
            self.head,
            self.wrapped,
            bytes,
        );
        self.head = head;
        self.wrapped = wrapped;
    }

    /// The bytes in the order they came.
    pub fn snapshot(&self) -> (out: Vec<u8>)
        requires
            self.wf(),
        ensures
            out@ == self@,
    {
        let data = self.data.as_slice();
        let n: usize = data.len();
        let mut out: Vec<u8> = Vec::new();
        if self.wrapped {
            push_bytes(&mut out, slice_subrange(data, self.head, n));
            push_bytes(&mut out, slice_subrange(data, 0, self.head));
        } else {
            push_bytes(&mut out, slice_subrange(data, 0, self.head));
        }
        assert(out@ =~= self@);
        out
    }
}

} // verus!
