//! A two-variant sum: a tag byte, then the chosen variant's bytes, zero-padded to the
//! width of the wider variant.
use crate::allocator::{Allocator, State};
use crate::error::Error;
use crate::view::{loaded, Native, WireView};
use crate::wire::zeros;
use vstd::prelude::*;

verus! {

/// The tag of the first variant.
pub const OK_DISCRIMINANT: u8 = 0;

/// The tag of the second variant, and the largest legal tag.
pub const ERR_DISCRIMINANT: u8 = 1;

/// The larger of two sizes.
pub open spec fn wider(a: nat, b: nat) -> nat {
    if a >= b {
        a
    } else {
        b
    }
}

/// The payload width of a sum of `T` and `E`.
pub open spec fn payload_size<T: WireView, E: WireView>() -> nat {
    wider(T::spec_size(), E::spec_size())
}

/// The checked view of a two-variant sum.
#[derive(Debug)]
pub enum Result<T, E> {
    Success(T),
    Failure(E),
}

impl<T: WireView, E: WireView> WireView for Result<T, E> {
    open spec fn spec_size() -> nat {
        1 + payload_size::<T, E>()
    }

    open spec fn spec_error(bytes: Seq<u8>) -> Option<Error> {
        if bytes[0] == OK_DISCRIMINANT {
            T::spec_error(bytes.subrange(1, 1 + T::spec_size() as int))
        } else if bytes[0] == ERR_DISCRIMINANT {
            E::spec_error(bytes.subrange(1, 1 + E::spec_size() as int))
        } else {
            Some(Error::Discriminant { value: bytes[0], maximum: ERR_DISCRIMINANT, ty: "Result" })
        }
    }

    open spec fn spec_view(bytes: Seq<u8>) -> Self {
        if bytes[0] == OK_DISCRIMINANT {
            Result::Success(T::spec_view(bytes.subrange(1, 1 + T::spec_size() as int)))
        } else {
            Result::Failure(E::spec_view(bytes.subrange(1, 1 + E::spec_size() as int)))
        }
    }

    fn size() -> (r: usize) {
        let t = T::size();
        let e = E::size();
        if t >= e {
            1 + t
        } else {
            1 + e
        }
    }

    fn check(buffer: &[u8], at: usize) -> (r: core::result::Result<Self, Error>) {
        let ghost bytes = buffer@.subrange(at as int, at + Self::spec_size());
        let discriminant = buffer[at];
        if discriminant == OK_DISCRIMINANT {
            assert(buffer@.subrange(at + 1, at + 1 + T::spec_size() as int) =~= bytes.subrange(
                1,
                1 + T::spec_size() as int,
            ));
            match T::check(buffer, at + 1) {
                Ok(t) => Ok(Result::Success(t)),
                Err(e) => Err(e),
            }
        } else if discriminant == ERR_DISCRIMINANT {
            assert(buffer@.subrange(at + 1, at + 1 + E::spec_size() as int) =~= bytes.subrange(
                1,
                1 + E::spec_size() as int,
            ));
            match E::check(buffer, at + 1) {
                Ok(e) => Ok(Result::Failure(e)),
                Err(e) => Err(e),
            }
        } else {
            Err(
                Error::Discriminant {
                    value: discriminant,
                    maximum: ERR_DISCRIMINANT,
                    ty: "Result",
                },
            )
        }
    }
}

/// The bytes of a sum whose variant has tag `tag` and payload `payload`, padded with
/// zeros to `width` bytes.
pub open spec fn sum_bytes(tag: u8, payload: Seq<u8>, width: nat) -> Seq<u8> {
    seq![tag] + payload + zeros((width - payload.len()) as nat)
}

/// Writes `n` zero bytes after a variant's payload.
fn serialize_padding<A: Allocator>(state: State<A>, n: usize) -> (r: State<A>)
    requires
        state.fits(n as nat),
    ensures
        r.written() == state.written() + zeros(n as nat),
        forall|k: nat| #[trigger] r.fits(k) == state.fits(k + n as nat),
{
    let mut padding: Vec<u8> = Vec::new();
    let mut i: usize = 0;
    while i < n
        invariant
            i <= n,
            padding@ =~= zeros(i as nat),
        decreases n - i,
    {
        padding.push(0u8);
        i = i + 1;
    }
    let mut state = state;
    state.write(padding.as_slice());
    state
}

/// Writes one value of a sum of `T` and `E`.
pub struct ResultSerializer<A, T, E> {
    state: State<A>,
    t: core::marker::PhantomData<T>,
    e: core::marker::PhantomData<E>,
}

impl<A: Allocator, T: Native, E: Native> ResultSerializer<A, T, E> {
    /// The cursor that the value will be written through.
    pub closed spec fn state(&self) -> State<A> {
        self.state
    }

    pub fn new(state: State<A>) -> (r: Self)
        ensures
            r.state() == state,
    {
        ResultSerializer { state, t: core::marker::PhantomData, e: core::marker::PhantomData }
    }

    /// Writes the first variant: its tag, `ok`'s bytes, then zeros up to the payload width.
    pub fn ok(self, ok: &T) -> (r: State<A>)
        requires
            self.state().fits(<Result<T::View, E::View> as WireView>::spec_size()),
            <Result<T::View, E::View> as WireView>::spec_size() <= usize::MAX,
        ensures
            r.written() == self.state().written() + sum_bytes(
                OK_DISCRIMINANT,
                ok.spec_encode(),
                payload_size::<T::View, E::View>(),
            ),
            forall|k: nat| #[trigger]
                r.fits(k) == self.state().fits(
                    k + <Result<T::View, E::View> as WireView>::spec_size(),
                ),
    {
        proof {
            ok.lemma_round_trip();
        }
        let width = <Result<T::View, E::View> as WireView>::size() - 1;
        let own = <T::View as WireView>::size();
        let tag: Vec<u8> = vec![OK_DISCRIMINANT];
        let mut state = self.state;
        proof {
            state.lemma_fits_fewer(1, <Result<T::View, E::View> as WireView>::spec_size());
        }
        state.write(tag.as_slice());
        proof {
            assert(state.fits(payload_size::<T::View, E::View>()));
            state.lemma_fits_fewer(
                <T::View as WireView>::spec_size(),
                payload_size::<T::View, E::View>(),
            );
        }
        let state = ok.serialize(state);
        let state = serialize_padding(state, width - own);
        assert(state.written() =~= self.state().written() + sum_bytes(
            OK_DISCRIMINANT,
            ok.spec_encode(),
            payload_size::<T::View, E::View>(),
        ));
        state
    }

    /// Writes the second variant: its tag, `err`'s bytes, then zeros up to the payload
    /// width.
    pub fn err(self, err: &E) -> (r: State<A>)
        requires
            self.state().fits(<Result<T::View, E::View> as WireView>::spec_size()),
            <Result<T::View, E::View> as WireView>::spec_size() <= usize::MAX,
        ensures
            r.written() == self.state().written() + sum_bytes(
                ERR_DISCRIMINANT,
                err.spec_encode(),
                payload_size::<T::View, E::View>(),
            ),
            forall|k: nat| #[trigger]
                r.fits(k) == self.state().fits(
                    k + <Result<T::View, E::View> as WireView>::spec_size(),
                ),
    {
        proof {
            err.lemma_round_trip();
        }
        let width = <Result<T::View, E::View> as WireView>::size() - 1;
        let own = <E::View as WireView>::size();
        let tag: Vec<u8> = vec![ERR_DISCRIMINANT];
        let mut state = self.state;
        proof {
            state.lemma_fits_fewer(1, <Result<T::View, E::View> as WireView>::spec_size());
        }
        state.write(tag.as_slice());
        proof {
            assert(state.fits(payload_size::<T::View, E::View>()));
            state.lemma_fits_fewer(
                <E::View as WireView>::spec_size(),
                payload_size::<T::View, E::View>(),
            );
        }
        let state = err.serialize(state);
        let state = serialize_padding(state, width - own);
        assert(state.written() =~= self.state().written() + sum_bytes(
            ERR_DISCRIMINANT,
            err.spec_encode(),
            payload_size::<T::View, E::View>(),
        ));
        state
    }
}

impl<T: Native, E: Native> Native for core::result::Result<T, E> {
    type View = Result<T::View, E::View>;

    open spec fn spec_encode(&self) -> Seq<u8> {
        match self {
            Ok(t) => sum_bytes(OK_DISCRIMINANT, t.spec_encode(), payload_size::<T::View, E::View>()),
            Err(e) => sum_bytes(
                ERR_DISCRIMINANT,
                e.spec_encode(),
                payload_size::<T::View, E::View>(),
            ),
        }
    }

    open spec fn spec_from_view(view: Result<T::View, E::View>) -> Self {
        match view {
            Result::Success(t) => Ok(T::spec_from_view(t)),
            Result::Failure(e) => Err(E::spec_from_view(e)),
        }
    }

    fn serialize<A: Allocator>(&self, state: State<A>) -> (r: State<A>) {
        match self {
            Ok(t) => ResultSerializer::<A, T, E>::new(state).ok(t),
            Err(e) => ResultSerializer::<A, T, E>::new(state).err(e),
        }
    }

    fn from_view(view: &Result<T::View, E::View>) -> (r: Self) {
        match view {
            Result::Success(t) => Ok(T::from_view(t)),
            Result::Failure(e) => Err(E::from_view(e)),
        }
    }

    proof fn lemma_round_trip(&self) {
        let enc = self.spec_encode();
        match self {
            Ok(t) => {
                t.lemma_round_trip();
                assert(enc.subrange(1, 1 + <T::View as WireView>::spec_size() as int)
                    =~= t.spec_encode());
            },
            Err(e) => {
                e.lemma_round_trip();
                assert(enc.subrange(1, 1 + <E::View as WireView>::spec_size() as int)
                    =~= e.spec_encode());
            },
        }
    }
}

/// A tag byte above the largest legal tag fails the load with that tag, whatever follows.
pub proof fn lemma_discriminant_out_of_range<T: Native, E: Native>(bytes: Seq<u8>)
    requires
        bytes.len() == <Result<T::View, E::View> as WireView>::spec_size(),
        bytes[0] > ERR_DISCRIMINANT,
    ensures
        loaded::<core::result::Result<T, E>>(bytes) == Err::<core::result::Result<T, E>, Error>(
            Error::Discriminant { value: bytes[0], maximum: ERR_DISCRIMINANT, ty: "Result" },
        ),
{
}

/// Tag 0 followed by an encoded first-variant value loads as that value; the padding
/// after it is not read.
pub proof fn lemma_ok_tag_loads<T: Native, E: Native>(bytes: Seq<u8>, t: T)
    requires
        bytes.len() == <Result<T::View, E::View> as WireView>::spec_size(),
        bytes[0] == OK_DISCRIMINANT,
        bytes.subrange(1, 1 + <T::View as WireView>::spec_size() as int) == t.spec_encode(),
    ensures
        loaded::<core::result::Result<T, E>>(bytes) == Ok::<core::result::Result<T, E>, Error>(
            Ok(t),
        ),
{
    t.lemma_round_trip();
}

/// Tag 1 followed by an encoded second-variant value loads as that value; the padding
/// after it is not read.
pub proof fn lemma_err_tag_loads<T: Native, E: Native>(bytes: Seq<u8>, e: E)
    requires
        bytes.len() == <Result<T::View, E::View> as WireView>::spec_size(),
        bytes[0] == ERR_DISCRIMINANT,
        bytes.subrange(1, 1 + <E::View as WireView>::spec_size() as int) == e.spec_encode(),
    ensures
        loaded::<core::result::Result<T, E>>(bytes) == Ok::<core::result::Result<T, E>, Error>(
            Err(e),
        ),
{
    e.lemma_round_trip();
}

/// A legal tag whose payload fails its own check fails the load with that same error.
pub proof fn lemma_payload_error_propagates<T: Native, E: Native>(bytes: Seq<u8>, err: Error)
    requires
        bytes.len() == <Result<T::View, E::View> as WireView>::spec_size(),
        (bytes[0] == OK_DISCRIMINANT && <T::View as WireView>::spec_error(
            bytes.subrange(1, 1 + <T::View as WireView>::spec_size() as int),
        ) == Some(err)) || (bytes[0] == ERR_DISCRIMINANT && <E::View as WireView>::spec_error(
            bytes.subrange(1, 1 + <E::View as WireView>::spec_size() as int),
        ) == Some(err)),
    ensures
        loaded::<core::result::Result<T, E>>(bytes) == Err::<core::result::Result<T, E>, Error>(
            err,
        ),
{
}

} // verus!
