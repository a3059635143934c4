//! Single bytes: every bit pattern is a legal value.
use crate::allocator::{Allocator, State};
use crate::error::Error;
use crate::view::{Native, WireView};
use vstd::prelude::*;

verus! {

/// Writes one byte.
pub struct U8Serializer<A> {
    state: State<A>,
}

impl<A: Allocator> U8Serializer<A> {
    /// The cursor that the byte will be written through.
    pub closed spec fn state(&self) -> State<A> {
        self.state
    }

    pub fn new(state: State<A>) -> (r: Self)
        ensures
            r.state() == state,
    {
        U8Serializer { state }
    }

    /// Writes `native` as it is.
    pub fn serialize(self, native: u8) -> (r: State<A>)
        requires
            self.state().fits(1),
        ensures
            r.written() == self.state().written() + seq![native],
            forall|k: nat| #[trigger] r.fits(k) == self.state().fits(k + 1),
    {
        let bytes: Vec<u8> = vec![native];
        let mut state = self.state;
        state.write(bytes.as_slice());
        state
    }
}

impl WireView for u8 {
    open spec fn spec_size() -> nat {
        1
    }

    open spec fn spec_error(bytes: Seq<u8>) -> Option<Error> {
        None
    }

    open spec fn spec_view(bytes: Seq<u8>) -> u8 {
        bytes[0]
    }

    fn size() -> (r: usize) {
        1
    }

    fn check(buffer: &[u8], at: usize) -> (r: Result<u8, Error>) {
        Ok(buffer[at])
    }
}

impl Native for u8 {
    type View = u8;

    open spec fn spec_encode(&self) -> Seq<u8> {
        seq![*self]
    }

    open spec fn spec_from_view(view: u8) -> u8 {
        view
    }

    fn serialize<A: Allocator>(&self, state: State<A>) -> (r: State<A>) {
        U8Serializer::new(state).serialize(*self)
    }

    fn from_view(view: &u8) -> (r: u8) {
        *view
    }

    proof fn lemma_round_trip(&self) {
    }
}

} // verus!
