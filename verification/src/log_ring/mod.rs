//! Byte ring of fixed capacity for log capture, over storage that the caller
//! provides, so that firmware can place it outside the heap.

pub mod owned;

use vstd::prelude::*;
use vstd::slice::slice_subrange;

verus! {

/// The newest `cap` bytes.
pub open spec fn newest(bytes: Seq<u8>, cap: nat) -> Seq<u8> {
    if bytes.len() <= cap {
        bytes
    } else {
        bytes.skip(bytes.len() - cap)
    }
}

/// The bytes of a ring in the order they came, from its storage, the place of the
/// next write, and whether it has wrapped.
pub open spec fn in_order(data: Seq<u8>, head: int, wrapped: bool) -> Seq<u8> {
    if wrapped {
        data.skip(head) + data.take(head)
    } else {
        data.take(head)
    }
}

/// Writes `bytes` into a ring and returns the place of the next write, and whether
/// the ring has wrapped.
pub(crate) fn write_into(data: &mut [u8], head: usize, wrapped: bool, bytes: &[u8]) -> (r: (usize, bool))
    requires
        head < old(data)@.len(),
    ensures
        final(data)@.len() == old(data)@.len(),
        r.0 < final(data)@.len(),
        in_order(final(data)@, r.0 as int, r.1) == newest(
            in_order(old(data)@, head as int, wrapped) + bytes@,
            old(data)@.len(),
        ),
        wrapped ==> r.1,
{
    let cap: usize = data.len();
    let ghost before = data@;
    let ghost had = in_order(before, head as int, wrapped);
    let len: usize = bytes.len();
    // Of more bytes than fit only the newest matter; they fill the ring from its
    // start.
    let skip: usize = if len > cap {
        len - cap
    } else {
        0
    };
    let start: usize = if len > cap {
        0
    } else {
        head
    };
    let count: usize = len - skip;
    let mut at: usize = start;
    let mut turned: bool = wrapped || len > cap;
    let mut i: usize = 0;
    while i < count
        invariant
            i <= count <= cap,
            count == len - skip,
            len == bytes@.len(),
            cap == before.len(),
            data@.len() == cap,
            start < cap,
            at < cap,
            at == (if start + i < cap {
                start + i
            } else {
                start + i - cap
            }),
            turned == (wrapped || len > cap || start + i >= cap),
            forall|j: int|
                0 <= j < cap ==> (#[trigger] data@[j]) == (if start <= j < start + i {
                    bytes@[skip + j - start]
                } else if j + cap < start + i {
                    bytes@[skip + j + cap - start]
                } else {
                    before[j]
                }),
        decreases count - i,
    {
        data[at] = bytes[skip + i];
        at = at + 1;
        if at == cap {
            at = 0;
            turned = true;
        }
        i = i + 1;
    }
    assert(in_order(data@, at as int, turned) =~= newest(had + bytes@, cap as nat));
    (at, turned)
}

/// A byte ring over storage that lives as long as the program.
pub struct Ring {
    data: &'static mut [u8],
    /// Place of the next write.
    head: usize,
    /// Set once the ring has wrapped; before that, `[0..head]` holds its bytes.
    wrapped: bool,
}

impl Ring {
    /// The bytes in the ring, in the order they came.
    pub closed spec fn view(&self) -> Seq<u8> {
        in_order(self.data@, self.head as int, self.wrapped)
    }

    /// How many bytes the ring holds at most.
    pub closed spec fn room(&self) -> nat {
        self.data@.len()
    }

    /// The ring's invariant.
    pub closed spec fn wf(&self) -> bool {
        self.head < self.data@.len()
    }

    /// What the ring holds fits it, and there is room for something.
    pub proof fn contents_fit(&self)
        requires
            self.wf(),
        ensures
            self@.len() <= self.room(),
            self.room() > 0,
    {
    }

    /// An empty ring over `data`, which has to be able to hold something.
    pub fn from_buf(data: &'static mut [u8]) -> (r: Ring)
        requires
            old(data)@.len() > 0,
        ensures
            r.wf(),
            r@ == Seq::<u8>::empty(),
            r.room() == old(data)@.len(),
    {
        let cap: usize = data.len();
        let mut i: usize = 0;
        while i < cap
            invariant
                i <= cap,
                data@.len() == cap,
            decreases cap - i,
        {
            data[i] = 0;
            i = i + 1;
        }
        let r = Ring { data, head: 0, wrapped: false };
        assert(r@ =~= Seq::<u8>::empty());
        r
    }

    /// Appends `bytes`; the oldest bytes make room.
    pub fn write(&mut self, bytes: &[u8])
        requires
            old(self).wf(),
        ensures
            final(self).wf(),
            final(self).room() == old(self).room(),
            final(self)@ == newest(old(self)@ + bytes@, old(self).room()),
    {
        let (head, wrapped) = write_into(self.data, self.head, self.wrapped, bytes);
        self.head = head;
        self.wrapped = wrapped;
    }

    /// The bytes in the order they came, as two slices; either may be empty.
    pub fn slices(&self) -> (r: (&[u8], &[u8]))
        requires
            self.wf(),
        ensures
            r.0@ + r.1@ == self@,
    {
        let data: &[u8] = &*self.data;
        let n: usize = data.len();
        if self.wrapped {
            let older = slice_subrange(data, self.head, n);
            let newer = slice_subrange(data, 0, self.head);
            assert(older@ + newer@ =~= self@);
            (older, newer)
        } else {
            let older = slice_subrange(data, 0, self.head);
            let newer = slice_subrange(data, 0, 0);
            assert(older@ + newer@ =~= self@);
            (older, newer)
        }
    }
}

/// Writing in pieces is the same as writing at once.
pub proof fn pieces_add_up(had: Seq<u8>, a: Seq<u8>, b: Seq<u8>, cap: nat)
    ensures
        newest(newest(had + a, cap) + b, cap) == newest(had + (a + b), cap),
{
    assert(newest(newest(had + a, cap) + b, cap) =~= newest(had + (a + b), cap));
}

/// Writing nothing changes nothing.
pub proof fn empty_write_keeps_the_ring(had: Seq<u8>, cap: nat)
    requires
        had.len() <= cap,
    ensures
        newest(had + Seq::<u8>::empty(), cap) == had,
{
    assert(had + Seq::<u8>::empty() =~= had);
}

/// The ring never holds more than its capacity, and what it holds last is what was
/// written last.
pub proof fn ring_keeps_the_newest(had: Seq<u8>, bytes: Seq<u8>, cap: nat)
    requires
        had.len() <= cap,
    ensures
        newest(had + bytes, cap).len() <= cap,
        bytes.len() <= cap ==> newest(had + bytes, cap).skip(
            newest(had + bytes, cap).len() - bytes.len(),
        ) =~= bytes,
        bytes.len() >= cap ==> newest(had + bytes, cap) =~= bytes.skip(bytes.len() - cap),
        had.len() + bytes.len() <= cap ==> newest(had + bytes, cap) == had + bytes,
{
}

/// What a ring holds after a write, byte by byte: the end of what it held and what was
/// written, as much of it as fits.
pub proof fn ring_holds_the_end(had: Seq<u8>, bytes: Seq<u8>, cap: nat)
    ensures
        ({
            let all = had + bytes;
            let kept = newest(all, cap);
            &&& kept.len() == (if all.len() < cap {
                all.len()
            } else {
                cap
            })
            &&& forall|i: int|
                0 <= i < kept.len() ==> #[trigger] kept[i] == all[all.len() - kept.len() + i]
        }),
{
}

} // verus!
