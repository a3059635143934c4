//! Destinations for encoded bytes, and the write cursor threaded through an encode.
use crate::error::Error;
use vstd::prelude::*;

verus! {

/// A destination that bytes are appended to.
pub trait Allocator: Sized {
    /// The bytes written so far, in order.
    spec fn written(&self) -> Seq<u8>;

    /// Whether `n` more bytes can be written.
    spec fn fits(&self, n: nat) -> bool;

    /// Room for `b` bytes is room for fewer.
    proof fn lemma_fits_fewer(&self, a: nat, b: nat)
        requires
            a <= b,
            self.fits(b),
        ensures
            self.fits(a),
    ;

    /// Appends `bytes` after what was written.
    fn write(&mut self, bytes: &[u8])
        requires
            old(self).fits(bytes@.len() as nat),
        ensures
            final(self).written() == old(self).written() + bytes@,
            forall|k: nat| #[trigger]
                final(self).fits(k) == old(self).fits(k + bytes@.len()),
    ;
}

/// A fixed region of bytes, filled from the start.
pub struct SliceAllocator {
    buffer: Vec<u8>,
    offset: usize,
}

impl SliceAllocator {
    /// The whole region, written part and the rest.
    pub closed spec fn region(&self) -> Seq<u8> {
        self.buffer@
    }

    /// Takes a region to write into; writing starts at its first byte.
    pub fn new(buffer: Vec<u8>) -> (r: Self)
        ensures
            r.written() == Seq::<u8>::empty(),
            r.region() == buffer@,
            forall|k: nat| #[trigger] r.fits(k) == (k <= buffer@.len()),
    {
        SliceAllocator { buffer, offset: 0 }
    }

    /// Hands the region back.
    pub fn into_inner(self) -> (r: Vec<u8>)
        ensures
            r@ == self.region(),
    {
        self.buffer
    }
}

impl Allocator for SliceAllocator {
    proof fn lemma_fits_fewer(&self, a: nat, b: nat) {
    }

    closed spec fn written(&self) -> Seq<u8> {
        self.buffer@.subrange(0, self.offset as int)
    }

    closed spec fn fits(&self, n: nat) -> bool {
        self.offset <= self.buffer@.len() && self.offset + n <= self.buffer@.len()
    }

    fn write(&mut self, bytes: &[u8]) {
        let ghost start = self.buffer@;
        let len = self.buffer.len();
        let mut i: usize = 0;
        while i < bytes.len()
            invariant
                i <= bytes@.len(),
                self.offset == old(self).offset + i,
                self.buffer@.len() == start.len(),
                len == start.len(),
                old(self).offset + bytes@.len() <= start.len(),
                self.buffer@.subrange(0, self.offset as int) =~= start.subrange(
                    0,
                    old(self).offset as int,
                ) + bytes@.subrange(0, i as int),
            decreases bytes@.len() - i,
        {
            let ghost before = self.buffer@;
            self.buffer.set(self.offset, bytes[i]);
            self.offset = self.offset + 1;
            i = i + 1;
            assert(self.buffer@.subrange(0, self.offset as int) =~= before.subrange(
                0,
                self.offset - 1,
            ).push(bytes@[i - 1]));
            assert(bytes@.subrange(0, i as int) =~= bytes@.subrange(0, i - 1).push(bytes@[i - 1]));
        }
        assert(bytes@.subrange(0, i as int) =~= bytes@);
    }
}

/// A buffer that grows as bytes are written.
pub struct VecAllocator {
    bytes: Vec<u8>,
}

impl VecAllocator {
    /// An empty buffer.
    pub fn new() -> (r: Self)
        ensures
            r.written() == Seq::<u8>::empty(),
            forall|k: nat| #[trigger] r.fits(k),
    {
        VecAllocator { bytes: Vec::new() }
    }

    /// Asks for room for `additional` more bytes; what was written stays either way.
    pub fn reserve(&mut self, additional: usize) -> (r: Result<(), Error>)
        ensures
            final(self).written() == old(self).written(),
            forall|k: nat| #[trigger] final(self).fits(k),
            r is Err ==> r->Err_0 is Allocation,
    {
        match self.bytes.try_reserve(additional) {
            Ok(()) => Ok(()),
            Err(source) => Err(Error::Allocation { source }),
        }
    }

    /// Hands the written bytes back.
    pub fn into_inner(self) -> (r: Vec<u8>)
        ensures
            r@ == self.written(),
    {
        self.bytes
    }
}

impl Allocator for VecAllocator {
    proof fn lemma_fits_fewer(&self, a: nat, b: nat) {
    }

    closed spec fn written(&self) -> Seq<u8> {
        self.bytes@
    }

    closed spec fn fits(&self, n: nat) -> bool {
        true
    }

    fn write(&mut self, bytes: &[u8]) {
        let mut i: usize = 0;
        while i < bytes.len()
            invariant
                i <= bytes@.len(),
                self.bytes@ =~= old(self).bytes@ + bytes@.subrange(0, i as int),
            decreases bytes@.len() - i,
        {
            self.bytes.push(bytes[i]);
            i = i + 1;
            assert(bytes@.subrange(0, i as int) =~= bytes@.subrange(0, i - 1).push(bytes@[i - 1]));
        }
        assert(bytes@.subrange(0, i as int) =~= bytes@);
    }
}

/// The write cursor of one encode: the destination, with what was written so far.
///
/// Each serializer takes a state, writes its bytes through it and hands it back, so
/// that nested values are written in one linear pass.
pub struct State<A> {
    allocator: A,
}

impl<A: Allocator> State<A> {
    /// The destination behind the cursor.
    pub closed spec fn allocator(&self) -> A {
        self.allocator
    }

    /// The bytes written so far.
    pub open spec fn written(&self) -> Seq<u8> {
        self.allocator().written()
    }

    /// Whether `n` more bytes can be written.
    pub open spec fn fits(&self, n: nat) -> bool {
        self.allocator().fits(n)
    }

    pub fn new(allocator: A) -> (r: Self)
        ensures
            r.allocator() == allocator,
    {
        State { allocator }
    }

    /// Room for `b` bytes is room for fewer.
    pub proof fn lemma_fits_fewer(&self, a: nat, b: nat)
        requires
            a <= b,
            self.fits(b),
        ensures
            self.fits(a),
    {
        self.allocator.lemma_fits_fewer(a, b);
    }

    /// Appends `bytes`.
    pub fn write(&mut self, bytes: &[u8])
        requires
            old(self).fits(bytes@.len() as nat),
        ensures
            final(self).written() == old(self).written() + bytes@,
            forall|k: nat| #[trigger] final(self).fits(k) == old(self).fits(k + bytes@.len()),
    {
        self.allocator.write(bytes);
    }

    /// Ends the encode and hands the destination back.
    pub fn finish(self) -> (r: A)
        ensures
            r == self.allocator(),
    {
        self.allocator
    }
}

} // verus!
