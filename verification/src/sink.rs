//! The output sink: an abstract writable destination that the caller lends to
//! the machine for the duration of one step or run. The `out` and
//! `out-number` instructions write to it byte by byte.

use vstd::prelude::*;

verus! {

/// A destination for the machine's output. `bytes` is everything the sink has
/// accepted so far, oldest first; a successful write appends exactly the byte
/// written, and a refused write leaves the sink's contents unchanged. A
/// `reliable` sink accepts every write and stays reliable, so output through
/// it never fails.
pub trait OutputSink {
    spec fn bytes(&self) -> Seq<u8>;

    spec fn reliable(&self) -> bool;

    fn write_byte(&mut self, b: u8) -> (ok: bool)
        ensures
            ok ==> final(self).bytes() == old(self).bytes().push(b),
            !ok ==> final(self).bytes() == old(self).bytes(),
            old(self).reliable() ==> ok && final(self).reliable(),
    ;
}

/// A sink that collects every byte into a growable buffer and never refuses
/// a write.
pub struct VecSink {
    data: Vec<u8>,
}

impl VecSink {
    /// An empty sink.
    pub fn new() -> (s: VecSink)
        ensures
            s.bytes() == Seq::<u8>::empty(),
            s.reliable(),
    {
        VecSink { data: Vec::new() }
    }

    /// Everything the sink has collected so far.
    pub fn data(&self) -> (r: &Vec<u8>)
        ensures
            r@ == self.bytes(),
    {
        &self.data
    }
}

impl OutputSink for VecSink {
    closed spec fn bytes(&self) -> Seq<u8> {
        self.data@
    }

    open spec fn reliable(&self) -> bool {
        true
    }

    fn write_byte(&mut self, b: u8) -> (ok: bool)
        ensures
            ok,
    {
        self.data.push(b);
        true
    }
}

/// A sink over a fixed-capacity buffer: it refuses every write once the
/// buffer is full, leaving its contents unchanged. It is not a reliable
/// sink: whether a write is accepted depends on the room left.
pub struct BoundedSink {
    data: Vec<u8>,
    capacity: usize,
}

impl BoundedSink {
    /// An empty sink that accepts at most `capacity` bytes.
    pub fn new(capacity: usize) -> (s: BoundedSink)
        ensures
            s.bytes() == Seq::<u8>::empty(),
            s.capacity() == capacity,
    {
        BoundedSink { data: Vec::new(), capacity }
    }

    /// How many bytes the sink accepts in all.
    pub closed spec fn capacity(&self) -> usize {
        self.capacity
    }

    /// Everything the sink has accepted so far.
    pub fn data(&self) -> (r: &Vec<u8>)
        ensures
            r@ == self.bytes(),
    {
        &self.data
    }
}

impl OutputSink for BoundedSink {
    closed spec fn bytes(&self) -> Seq<u8> {
        self.data@
    }

    open spec fn reliable(&self) -> bool {
        false
    }

    fn write_byte(&mut self, b: u8) -> (ok: bool)
        ensures
            ok <==> old(self).bytes().len() < old(self).capacity(),
            final(self).capacity() == old(self).capacity(),
    {
        if self.data.len() < self.capacity {
            self.data.push(b);
            true
        } else {
            false
        }
    }
}

} // verus!
