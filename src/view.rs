//! The duality between native values and their fixed-layout wire views.
use crate::allocator::{Allocator, State, VecAllocator};
use crate::error::Error;
use vstd::prelude::*;

verus! {

/// A fixed-layout view of a value's bytes, checked before it is read.
pub trait WireView: Sized {
    /// The number of bytes of the view.
    spec fn spec_size() -> nat;

    /// The first violation in `bytes`, or `None` where they are a legal instance.
    spec fn spec_error(bytes: Seq<u8>) -> Option<Error>;

    /// The view that legal `bytes` hold.
    spec fn spec_view(bytes: Seq<u8>) -> Self;

    /// The number of bytes of the view.
    fn size() -> (r: usize)
        requires
            Self::spec_size() <= usize::MAX,
        ensures
            r == Self::spec_size(),
    ;

    /// Checks the bytes of `buffer` from `at` on and reads the view they hold.
    fn check(buffer: &[u8], at: usize) -> (r: Result<Self, Error>)
        requires
            at + Self::spec_size() <= buffer@.len(),
            at + Self::spec_size() <= usize::MAX,
        ensures
            match Self::spec_error(buffer@.subrange(at as int, at + Self::spec_size())) {
                Some(e) => r == Err::<Self, Error>(e),
                None => r == Ok::<Self, Error>(
                    Self::spec_view(buffer@.subrange(at as int, at + Self::spec_size())),
                ),
            },
    ;
}

/// What checking `bytes` as a `V` gives.
pub open spec fn checked<V: WireView>(bytes: Seq<u8>) -> Result<V, Error> {
    match V::spec_error(bytes) {
        Some(e) => Err(e),
        None => Ok(V::spec_view(bytes)),
    }
}

/// An application value, with the view type that carries it on the wire.
pub trait Native: Sized {
    type View: WireView;

    /// The bytes that encode the value.
    spec fn spec_encode(&self) -> Seq<u8>;

    /// The value that a view holds.
    spec fn spec_from_view(view: Self::View) -> Self;

    /// Writes the value's bytes through `state` and hands the state on.
    fn serialize<A: Allocator>(&self, state: State<A>) -> (r: State<A>)
        requires
            state.fits(<Self::View as WireView>::spec_size()),
            <Self::View as WireView>::spec_size() <= usize::MAX,
        ensures
            r.written() == state.written() + self.spec_encode(),
            forall|k: nat| #[trigger]
                r.fits(k) == state.fits(k + <Self::View as WireView>::spec_size()),
    ;

    /// The value that a checked view holds.
    fn from_view(view: &Self::View) -> (r: Self)
        ensures
            r == Self::spec_from_view(*view),
    ;

    /// The encoding has the view's size, is legal, and holds the value again.
    proof fn lemma_round_trip(&self)
        ensures
            self.spec_encode().len() == <Self::View as WireView>::spec_size(),
            <Self::View as WireView>::spec_error(self.spec_encode()) is None,
            Self::spec_from_view(<Self::View as WireView>::spec_view(self.spec_encode())) == *self,
    ;
}

/// What loading `bytes` as an `N` gives.
pub open spec fn loaded<N: Native>(bytes: Seq<u8>) -> Result<N, Error> {
    match <N::View as WireView>::spec_error(bytes) {
        Some(e) => Err(e),
        None => Ok(N::spec_from_view(<N::View as WireView>::spec_view(bytes))),
    }
}

/// Checks `buffer` as the view of an `N`, without converting it.
pub fn view<N: Native>(buffer: &[u8]) -> (r: Result<N::View, Error>)
    requires
        buffer@.len() == <N::View as WireView>::spec_size(),
    ensures
        r == checked::<N::View>(buffer@),
{
    let _n = buffer.len();
    assert(buffer@.subrange(0, buffer@.len() as int) =~= buffer@);
    <N::View as WireView>::check(buffer, 0)
}

/// Checks `buffer` as the view of an `N` and converts it to an owned value.
pub fn load<N: Native>(buffer: &[u8]) -> (r: Result<N, Error>)
    requires
        buffer@.len() == <N::View as WireView>::spec_size(),
    ensures
        r == loaded::<N>(buffer@),
{
    match view::<N>(buffer) {
        Ok(v) => Ok(N::from_view(&v)),
        Err(e) => Err(e),
    }
}

/// Writes `value` into `allocator` after what it holds, and hands it back.
pub fn serialize<N: Native, A: Allocator>(value: &N, allocator: A) -> (r: A)
    requires
        allocator.fits(<N::View as WireView>::spec_size()),
        <N::View as WireView>::spec_size() <= usize::MAX,
    ensures
        r.written() == allocator.written() + value.spec_encode(),
{
    value.serialize(State::new(allocator)).finish()
}

/// Encodes `value` into a new buffer; fails only where room cannot be reserved.
pub fn to_vec<N: Native>(value: &N) -> (r: Result<Vec<u8>, Error>)
    requires
        <N::View as WireView>::spec_size() <= usize::MAX,
    ensures
        r is Ok ==> r->Ok_0@ == value.spec_encode(),
        r is Err ==> r->Err_0 is Allocation,
{
    let mut allocator = VecAllocator::new();
    match allocator.reserve(<N::View as WireView>::size()) {
        Ok(()) => {
            let allocator = serialize(value, allocator);
            Ok(allocator.into_inner())
        },
        Err(e) => Err(e),
    }
}

/// Loading what a value serializes to gives the value back.
pub proof fn lemma_load_serialize<N: Native>(value: N)
    ensures
        value.spec_encode().len() == <N::View as WireView>::spec_size(),
        loaded::<N>(value.spec_encode()) == Ok::<N, Error>(value),
{
    value.lemma_round_trip();
}

} // verus!
