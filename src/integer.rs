//! Integers of two to sixteen bytes, little-endian, two's complement where signed.
//! Every bit pattern is a legal value.
use crate::allocator::{Allocator, State};
use crate::error::Error;
use crate::view::{loaded, Native, WireView};
use crate::wire::{
    le_bytes, le_decode, le_encode, le_value, lemma_le_bytes_len, lemma_le_value_of_bytes,
    lemma_pow256_values,
};
use vstd::prelude::*;

verus! {

/// Writes the `n` bytes of `v`, least significant first.
fn serialize_le<A: Allocator>(state: State<A>, v: u128, n: usize) -> (r: State<A>)
    requires
        state.fits(n as nat),
        n <= 16,
    ensures
        r.written() == state.written() + le_bytes(v as nat, n as nat),
        forall|k: nat| #[trigger] r.fits(k) == state.fits(k + n as nat),
{
    let bytes = le_encode(v, n);
    proof {
        lemma_le_bytes_len(v as nat, n as nat);
    }
    let mut state = state;
    state.write(bytes.as_slice());
    state
}

impl WireView for u16 {
    open spec fn spec_size() -> nat {
        2
    }

    open spec fn spec_error(bytes: Seq<u8>) -> Option<Error> {
        None
    }

    open spec fn spec_view(bytes: Seq<u8>) -> u16 {
        le_value(bytes) as u16
    }

    fn size() -> (r: usize) {
        2
    }

    fn check(buffer: &[u8], at: usize) -> (r: Result<u16, Error>) {
        Ok(le_decode(buffer, at, 2) as u16)
    }
}

impl Native for u16 {
    type View = u16;

    open spec fn spec_encode(&self) -> Seq<u8> {
        le_bytes(*self as nat, 2)
    }

    open spec fn spec_from_view(view: u16) -> u16 {
        view
    }

    fn serialize<A: Allocator>(&self, state: State<A>) -> (r: State<A>) {
        serialize_le(state, *self as u128, 2)
    }

    fn from_view(view: &u16) -> (r: u16) {
        *view
    }

    proof fn lemma_round_trip(&self) {
        lemma_pow256_values();
        lemma_le_value_of_bytes(*self as nat, 2);
    }
}

impl WireView for u32 {
    open spec fn spec_size() -> nat {
        4
    }

    open spec fn spec_error(bytes: Seq<u8>) -> Option<Error> {
        None
    }

    open spec fn spec_view(bytes: Seq<u8>) -> u32 {
        le_value(bytes) as u32
    }

    fn size() -> (r: usize) {
        4
    }

    fn check(buffer: &[u8], at: usize) -> (r: Result<u32, Error>) {
        Ok(le_decode(buffer, at, 4) as u32)
    }
}

impl Native for u32 {
    type View = u32;

    open spec fn spec_encode(&self) -> Seq<u8> {
        le_bytes(*self as nat, 4)
    }

    open spec fn spec_from_view(view: u32) -> u32 {
        view
    }

    fn serialize<A: Allocator>(&self, state: State<A>) -> (r: State<A>) {
        serialize_le(state, *self as u128, 4)
    }

    fn from_view(view: &u32) -> (r: u32) {
        *view
    }

    proof fn lemma_round_trip(&self) {
        lemma_pow256_values();
        lemma_le_value_of_bytes(*self as nat, 4);
    }
}

impl WireView for u64 {
    open spec fn spec_size() -> nat {
        8
    }

    open spec fn spec_error(bytes: Seq<u8>) -> Option<Error> {
        None
    }

    open spec fn spec_view(bytes: Seq<u8>) -> u64 {
        le_value(bytes) as u64
    }

    fn size() -> (r: usize) {
        8
    }

    fn check(buffer: &[u8], at: usize) -> (r: Result<u64, Error>) {
        Ok(le_decode(buffer, at, 8) as u64)
    }
}

impl Native for u64 {
    type View = u64;

    open spec fn spec_encode(&self) -> Seq<u8> {
        le_bytes(*self as nat, 8)
    }

    open spec fn spec_from_view(view: u64) -> u64 {
        view
    }

    fn serialize<A: Allocator>(&self, state: State<A>) -> (r: State<A>) {
        serialize_le(state, *self as u128, 8)
    }

    fn from_view(view: &u64) -> (r: u64) {
        *view
    }

    proof fn lemma_round_trip(&self) {
        lemma_pow256_values();
        lemma_le_value_of_bytes(*self as nat, 8);
    }
}

impl WireView for u128 {
    open spec fn spec_size() -> nat {
        16
    }

    open spec fn spec_error(bytes: Seq<u8>) -> Option<Error> {
        None
    }

    open spec fn spec_view(bytes: Seq<u8>) -> u128 {
        le_value(bytes) as u128
    }

    fn size() -> (r: usize) {
        16
    }

    fn check(buffer: &[u8], at: usize) -> (r: Result<u128, Error>) {
        Ok(le_decode(buffer, at, 16) as u128)
    }
}

impl Native for u128 {
    type View = u128;

    open spec fn spec_encode(&self) -> Seq<u8> {
        le_bytes(*self as nat, 16)
    }

    open spec fn spec_from_view(view: u128) -> u128 {
        view
    }

    fn serialize<A: Allocator>(&self, state: State<A>) -> (r: State<A>) {
        serialize_le(state, *self, 16)
    }

    fn from_view(view: &u128) -> (r: u128) {
        *view
    }

    proof fn lemma_round_trip(&self) {
        lemma_pow256_values();
        lemma_le_value_of_bytes(*self as nat, 16);
    }
}

impl WireView for i16 {
    open spec fn spec_size() -> nat {
        2
    }

    open spec fn spec_error(bytes: Seq<u8>) -> Option<Error> {
        None
    }

    open spec fn spec_view(bytes: Seq<u8>) -> i16 {
        le_value(bytes) as i16
    }

    fn size() -> (r: usize) {
        2
    }

    fn check(buffer: &[u8], at: usize) -> (r: Result<i16, Error>) {
        Ok(le_decode(buffer, at, 2) as i16)
    }
}

impl Native for i16 {
    type View = i16;

    open spec fn spec_encode(&self) -> Seq<u8> {
        le_bytes((*self as u16) as nat, 2)
    }

    open spec fn spec_from_view(view: i16) -> i16 {
        view
    }

    fn serialize<A: Allocator>(&self, state: State<A>) -> (r: State<A>) {
        serialize_le(state, *self as u16 as u128, 2)
    }

    fn from_view(view: &i16) -> (r: i16) {
        *view
    }

    proof fn lemma_round_trip(&self) {
        lemma_pow256_values();
        lemma_le_value_of_bytes((*self as u16) as nat, 2);
        assert((*self as u16) as i16 == *self) by (bit_vector);
    }
}

impl WireView for i32 {
    open spec fn spec_size() -> nat {
        4
    }

    open spec fn spec_error(bytes: Seq<u8>) -> Option<Error> {
        None
    }

    open spec fn spec_view(bytes: Seq<u8>) -> i32 {
        le_value(bytes) as i32
    }

    fn size() -> (r: usize) {
        4
    }

    fn check(buffer: &[u8], at: usize) -> (r: Result<i32, Error>) {
        Ok(le_decode(buffer, at, 4) as i32)
    }
}

impl Native for i32 {
    type View = i32;

    open spec fn spec_encode(&self) -> Seq<u8> {
        le_bytes((*self as u32) as nat, 4)
    }

    open spec fn spec_from_view(view: i32) -> i32 {
        view
    }

    fn serialize<A: Allocator>(&self, state: State<A>) -> (r: State<A>) {
        serialize_le(state, *self as u32 as u128, 4)
    }

    fn from_view(view: &i32) -> (r: i32) {
        *view
    }

    proof fn lemma_round_trip(&self) {
        lemma_pow256_values();
        lemma_le_value_of_bytes((*self as u32) as nat, 4);
        assert((*self as u32) as i32 == *self) by (bit_vector);
    }
}

impl WireView for i64 {
    open spec fn spec_size() -> nat {
        8
    }

    open spec fn spec_error(bytes: Seq<u8>) -> Option<Error> {
        None
    }

    open spec fn spec_view(bytes: Seq<u8>) -> i64 {
        le_value(bytes) as i64
    }

    fn size() -> (r: usize) {
        8
    }

    fn check(buffer: &[u8], at: usize) -> (r: Result<i64, Error>) {
        Ok(le_decode(buffer, at, 8) as i64)
    }
}

impl Native for i64 {
    type View = i64;

    open spec fn spec_encode(&self) -> Seq<u8> {
        le_bytes((*self as u64) as nat, 8)
    }

    open spec fn spec_from_view(view: i64) -> i64 {
        view
    }

    fn serialize<A: Allocator>(&self, state: State<A>) -> (r: State<A>) {
        serialize_le(state, *self as u64 as u128, 8)
    }

    fn from_view(view: &i64) -> (r: i64) {
        *view
    }

    proof fn lemma_round_trip(&self) {
        lemma_pow256_values();
        lemma_le_value_of_bytes((*self as u64) as nat, 8);
        assert((*self as u64) as i64 == *self) by (bit_vector);
    }
}

impl WireView for i128 {
    open spec fn spec_size() -> nat {
        16
    }

    open spec fn spec_error(bytes: Seq<u8>) -> Option<Error> {
        None
    }

    open spec fn spec_view(bytes: Seq<u8>) -> i128 {
        le_value(bytes) as i128
    }

    fn size() -> (r: usize) {
        16
    }

    fn check(buffer: &[u8], at: usize) -> (r: Result<i128, Error>) {
        Ok(le_decode(buffer, at, 16) as i128)
    }
}

impl Native for i128 {
    type View = i128;

    open spec fn spec_encode(&self) -> Seq<u8> {
        le_bytes((*self as u128) as nat, 16)
    }

    open spec fn spec_from_view(view: i128) -> i128 {
        view
    }

    fn serialize<A: Allocator>(&self, state: State<A>) -> (r: State<A>) {
        serialize_le(state, *self as u128, 16)
    }

    fn from_view(view: &i128) -> (r: i128) {
        *view
    }

    proof fn lemma_round_trip(&self) {
        lemma_pow256_values();
        lemma_le_value_of_bytes((*self as u128) as nat, 16);
        assert((*self as u128) as i128 == *self) by (bit_vector);
    }
}

/// Every byte string of an integer's size is legal and loads as the integer whose
/// little-endian bytes it is.
pub proof fn lemma_integers_total(bytes: Seq<u8>)
    ensures
        bytes.len() == 1 ==> loaded::<u8>(bytes) == Ok::<u8, Error>(bytes[0]),
        bytes.len() == 2 ==> loaded::<u16>(bytes) == Ok::<u16, Error>(le_value(bytes) as u16),
        bytes.len() == 2 ==> loaded::<i16>(bytes) == Ok::<i16, Error>(le_value(bytes) as i16),
        bytes.len() == 4 ==> loaded::<u32>(bytes) == Ok::<u32, Error>(le_value(bytes) as u32),
        bytes.len() == 4 ==> loaded::<i32>(bytes) == Ok::<i32, Error>(le_value(bytes) as i32),
        bytes.len() == 8 ==> loaded::<u64>(bytes) == Ok::<u64, Error>(le_value(bytes) as u64),
        bytes.len() == 8 ==> loaded::<i64>(bytes) == Ok::<i64, Error>(le_value(bytes) as i64),
        bytes.len() == 16 ==> loaded::<u128>(bytes) == Ok::<u128, Error>(le_value(bytes) as u128),
        bytes.len() == 16 ==> loaded::<i128>(bytes) == Ok::<i128, Error>(le_value(bytes) as i128),
{
}

} // verus!
