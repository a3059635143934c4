//! Characters: a Unicode scalar value in a three-byte little-endian field.
use crate::allocator::{Allocator, State};
use crate::error::Error;
use crate::view::{loaded, Native, WireView};
use crate::wire::{
    le_bytes, le_decode, lemma_le_bytes_len, le_encode, le_value, lemma_le_value_bound, lemma_le_value_of_bytes,
    lemma_pow256_values,
};
use vstd::prelude::*;

verus! {

/// Whether `v` is a Unicode scalar value: at most 0x10FFFF and no surrogate.
pub open spec fn is_scalar(v: nat) -> bool {
    v <= 0x10FFFF && !(0xD800 <= v && v <= 0xDFFF)
}

/// The scalar value of a character.
pub open spec fn code_of(c: char) -> nat {
    c as u32 as nat
}

/// Every character's number is a Unicode scalar value.
pub proof fn lemma_char_is_scalar(c: char)
    ensures
        is_scalar(code_of(c)),
{
}

/// Two characters with one number are one character.
pub proof fn lemma_code_injective(a: char, b: char)
    requires
        code_of(a) == code_of(b),
    ensures
        a == b,
{
    assert(a as u32 == b as u32);
}

/// Relies on std's `char::from_u32`: the character whose number is `v`, where `v` is a
/// Unicode scalar value, and `None` otherwise.
#[verifier::external_body]
fn char_from_u32(v: u32) -> (r: Option<char>)
    ensures
        r is Some <==> is_scalar(v as nat),
        r is Some ==> r->Some_0 as u32 == v,
{
    char::from_u32(v)
}

/// The checked view of a character: the three low bytes of its scalar value.
#[derive(Debug)]
pub struct Char {
    le_bytes: [u8; 3],
}

impl Char {
    #[verifier::type_invariant]
    closed spec fn inv(&self) -> bool {
        is_scalar(le_value(self.le_bytes@))
    }

    /// The scalar value that the field holds.
    pub closed spec fn spec_scalar(&self) -> nat {
        le_value(self.le_bytes@)
    }

    /// The scalar value that the field holds.
    pub fn scalar(&self) -> (r: u32)
        ensures
            r as nat == self.spec_scalar(),
    {
        let b = self.le_bytes;
        proof {
            reveal_with_fuel(le_value, 4);
            let s = b@;
            assert(s.drop_first().drop_first().drop_first().len() == 0);
        }
        b[0] as u32 + 256 * (b[1] as u32) + 65536 * (b[2] as u32)
    }
}

impl WireView for Char {
    open spec fn spec_size() -> nat {
        3
    }

    open spec fn spec_error(bytes: Seq<u8>) -> Option<Error> {
        if is_scalar(le_value(bytes)) {
            None
        } else {
            Some(Error::Char { value: le_value(bytes) as u32 })
        }
    }

    closed spec fn spec_view(bytes: Seq<u8>) -> Char {
        Char { le_bytes: [bytes[0], bytes[1], bytes[2]] }
    }

    fn size() -> (r: usize) {
        3
    }

    fn check(buffer: &[u8], at: usize) -> (r: Result<Char, Error>) {
        let ghost bytes = buffer@.subrange(at as int, at + 3);
        let v = le_decode(buffer, at, 3);
        proof {
            lemma_le_value_bound(bytes);
            lemma_pow256_values();
        }
        let value = v as u32;
        match char_from_u32(value) {
            None => Err(Error::Char { value }),
            Some(_) => {
                let le_bytes = [buffer[at], buffer[at + 1], buffer[at + 2]];
                assert(le_bytes@ =~= bytes);
                Ok(Char { le_bytes })
            },
        }
    }
}

/// Writes one character's field.
pub struct CharSerializer<A> {
    state: State<A>,
}

impl<A: Allocator> CharSerializer<A> {
    /// The cursor that the character will be written through.
    pub closed spec fn state(&self) -> State<A> {
        self.state
    }

    pub fn new(state: State<A>) -> (r: Self)
        ensures
            r.state() == state,
    {
        CharSerializer { state }
    }

    /// Writes the three low bytes of `value`'s scalar value, least significant first.
    pub fn serialize_char(self, value: char) -> (r: State<A>)
        requires
            self.state().fits(3),
        ensures
            r.written() == self.state().written() + le_bytes(value as u32 as nat, 3),
            forall|k: nat| #[trigger] r.fits(k) == self.state().fits(k + 3),
    {
        let bytes = le_encode(value as u32 as u128, 3);
        proof {
            lemma_le_bytes_len(value as u32 as nat, 3);
        }
        let mut state = self.state;
        state.write(bytes.as_slice());
        state
    }
}

impl Native for char {
    type View = Char;

    open spec fn spec_encode(&self) -> Seq<u8> {
        le_bytes(*self as u32 as nat, 3)
    }

    closed spec fn spec_from_view(view: Char) -> char {
        choose|c: char| #[trigger] code_of(c) == view.spec_scalar()
    }

    fn serialize<A: Allocator>(&self, state: State<A>) -> (r: State<A>) {
        CharSerializer::new(state).serialize_char(*self)
    }

    fn from_view(view: &Char) -> (r: char) {
        proof {
            use_type_invariant(view);
        }
        let v = view.scalar();
        match char_from_u32(v) {
            Some(c) => {
                assert(code_of(c) == view.spec_scalar());
                let ghost d = Self::spec_from_view(*view);
                proof {
                    lemma_code_injective(d, c);
                }
                c
            },
            None => {
                assert(false);
                '\0'
            },
        }
    }

    proof fn lemma_round_trip(&self) {
        lemma_char_is_scalar(*self);
        let v = *self as u32 as nat;
        lemma_pow256_values();
        lemma_le_value_of_bytes(v, 3);
        let e = self.spec_encode();
        let view = Char::spec_view(e);
        assert(view.le_bytes@ =~= e);
        assert(code_of(*self) == view.spec_scalar());
        lemma_code_injective(Self::spec_from_view(view), *self);
    }
}

/// Loading what a character serializes to gives the character back.
pub proof fn lemma_char_round_trip(c: char)
    ensures
        c.spec_encode().len() == 3,
        loaded::<char>(c.spec_encode()) == Ok::<char, Error>(c),
{
    c.lemma_round_trip();
}

/// Three bytes whose number is no Unicode scalar value fail to load, with that number.
pub proof fn lemma_char_rejects_non_scalar(bytes: Seq<u8>)
    requires
        bytes.len() == 3,
        !is_scalar(le_value(bytes)),
    ensures
        loaded::<char>(bytes) == Err::<char, Error>(Error::Char { value: le_value(bytes) as u32 }),
{
}

} // verus!
