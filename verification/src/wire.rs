use vstd::prelude::*;
use vstd::bytes::*;

verus! {

/// A value that travels over a channel as a fixed number of bytes.
///
/// Integers travel little-endian, in the width of their type; `usize` and
/// `isize` travel as eight bytes; `bool` as one byte, 1 for true.
pub trait Transportable: Sized + Copy {
    /// How many bytes the value takes on the wire.
    spec fn wire_size() -> nat;

    /// The value's bytes on the wire.
    spec fn encode(self) -> Seq<u8>;

    /// The value that a run of `wire_size()` bytes stands for.
    spec fn decode(bytes: Seq<u8>) -> Self;

    /// Encoding has the stated size, and decoding gives the value back.
    proof fn lemma_round_trip(v: Self)
        ensures
            v.encode().len() == Self::wire_size(),
            Self::decode(v.encode()) == v,
    ;

    /// How many bytes the value takes on the wire.
    fn size() -> (n: usize)
        ensures
            n == Self::wire_size(),
    ;

    /// The value's bytes on the wire.
    fn to_bytes(&self) -> (v: Vec<u8>)
        ensures
            v@ == self.encode(),
    ;

    /// The value that `bytes` stand for.
    fn from_bytes(bytes: &[u8]) -> (v: Self)
        requires
            bytes@.len() == Self::wire_size(),
        ensures
            v == Self::decode(bytes@),
    ;
}

impl Transportable for u8 {
    open spec fn wire_size() -> nat {
        1
    }

    open spec fn encode(self) -> Seq<u8> {
        seq![self]
    }

    open spec fn decode(bytes: Seq<u8>) -> u8 {
        bytes[0]
    }

    proof fn lemma_round_trip(v: u8) {
    }

    fn size() -> (n: usize) {
        1
    }

    fn to_bytes(&self) -> (v: Vec<u8>) {
        let mut v = Vec::new();
        v.push(*self);
        assert(v@ =~= seq![*self]);
        v
    }

    fn from_bytes(bytes: &[u8]) -> (v: u8) {
        bytes[0]
    }
}

impl Transportable for bool {
    open spec fn wire_size() -> nat {
        1
    }

    open spec fn encode(self) -> Seq<u8> {
        seq![if self { 1u8 } else { 0u8 }]
    }

    open spec fn decode(bytes: Seq<u8>) -> bool {
        bytes[0] != 0
    }

    proof fn lemma_round_trip(v: bool) {
    }

    fn size() -> (n: usize) {
        1
    }

    fn to_bytes(&self) -> (v: Vec<u8>) {
        let mut v = Vec::new();
        v.push(if *self { 1u8 } else { 0u8 });
        assert(v@ =~= self.encode());
        v
    }

    fn from_bytes(bytes: &[u8]) -> (v: bool) {
        bytes[0] != 0
    }
}

impl Transportable for u32 {
    open spec fn wire_size() -> nat {
        4
    }

    open spec fn encode(self) -> Seq<u8> {
        spec_u32_to_le_bytes(self)
    }

    open spec fn decode(bytes: Seq<u8>) -> u32 {
        spec_u32_from_le_bytes(bytes)
    }

    proof fn lemma_round_trip(v: u32) {
        lemma_auto_spec_u32_to_from_le_bytes();
        assert(spec_u32_to_le_bytes(v).len() == 4);
    }

    fn size() -> (n: usize) {
        4
    }

    fn to_bytes(&self) -> (v: Vec<u8>) {
        u32_to_le_bytes(*self)
    }

    fn from_bytes(bytes: &[u8]) -> (v: u32) {
        u32_from_le_bytes(bytes)
    }
}

impl Transportable for i32 {
    open spec fn wire_size() -> nat {
        4
    }

    open spec fn encode(self) -> Seq<u8> {
        spec_u32_to_le_bytes(self as u32)
    }

    open spec fn decode(bytes: Seq<u8>) -> i32 {
        spec_u32_from_le_bytes(bytes) as i32
    }

    proof fn lemma_round_trip(v: i32) {
        lemma_auto_spec_u32_to_from_le_bytes();
        assert(spec_u32_to_le_bytes(v as u32).len() == 4);
        assert((v as u32) as i32 == v) by (bit_vector);
    }

    fn size() -> (n: usize) {
        4
    }

    fn to_bytes(&self) -> (v: Vec<u8>) {
        u32_to_le_bytes(*self as u32)
    }

    fn from_bytes(bytes: &[u8]) -> (v: i32) {
        u32_from_le_bytes(bytes) as i32
    }
}

impl Transportable for u64 {
    open spec fn wire_size() -> nat {
        8
    }

    open spec fn encode(self) -> Seq<u8> {
        spec_u64_to_le_bytes(self)
    }

    open spec fn decode(bytes: Seq<u8>) -> u64 {
        spec_u64_from_le_bytes(bytes)
    }

    proof fn lemma_round_trip(v: u64) {
        lemma_auto_spec_u64_to_from_le_bytes();
        assert(spec_u64_to_le_bytes(v).len() == 8);
    }

    fn size() -> (n: usize) {
        8
    }

    fn to_bytes(&self) -> (v: Vec<u8>) {
        u64_to_le_bytes(*self)
    }

    fn from_bytes(bytes: &[u8]) -> (v: u64) {
        u64_from_le_bytes(bytes)
    }
}

impl Transportable for usize {
    open spec fn wire_size() -> nat {
        8
    }

    open spec fn encode(self) -> Seq<u8> {
        spec_u64_to_le_bytes(self as u64)
    }

    open spec fn decode(bytes: Seq<u8>) -> usize {
        spec_u64_from_le_bytes(bytes) as usize
    }

    proof fn lemma_round_trip(v: usize) {
        lemma_auto_spec_u64_to_from_le_bytes();
        let x = v as u64;
        assert(spec_u64_to_le_bytes(x).len() == 8);
        assert(spec_u64_from_le_bytes(spec_u64_to_le_bytes(x)) == x);
        assert((v as u64) as usize == v) by (bit_vector);
        assert(v.encode() == spec_u64_to_le_bytes(x));
        assert(usize::decode(v.encode()) == x as usize);
        assert(v.encode().len() == 8);
        assert(usize::wire_size() == 8);
    }

    fn size() -> (n: usize) {
        8
    }

    fn to_bytes(&self) -> (v: Vec<u8>) {
        u64_to_le_bytes(*self as u64)
    }

    fn from_bytes(bytes: &[u8]) -> (v: usize) {
        u64_from_le_bytes(bytes) as usize
    }
}

impl Transportable for i8 {
    open spec fn wire_size() -> nat {
        1
    }

    open spec fn encode(self) -> Seq<u8> {
        seq![self as u8]
    }

    open spec fn decode(bytes: Seq<u8>) -> i8 {
        bytes[0] as i8
    }

    proof fn lemma_round_trip(v: i8) {
        assert((v as u8) as i8 == v) by (bit_vector);
    }

    fn size() -> (n: usize) {
        1
    }

    fn to_bytes(&self) -> (v: Vec<u8>) {
        let mut v = Vec::new();
        v.push(*self as u8);
        assert(v@ =~= self.encode());
        v
    }

    fn from_bytes(bytes: &[u8]) -> (v: i8) {
        bytes[0] as i8
    }
}

impl Transportable for u16 {
    open spec fn wire_size() -> nat {
        2
    }

    open spec fn encode(self) -> Seq<u8> {
        spec_u16_to_le_bytes(self)
    }

    open spec fn decode(bytes: Seq<u8>) -> u16 {
        spec_u16_from_le_bytes(bytes)
    }

    proof fn lemma_round_trip(v: u16) {
        lemma_auto_spec_u16_to_from_le_bytes();
        assert(spec_u16_to_le_bytes(v).len() == 2);
    }

    fn size() -> (n: usize) {
        2
    }

    fn to_bytes(&self) -> (v: Vec<u8>) {
        u16_to_le_bytes(*self)
    }

    fn from_bytes(bytes: &[u8]) -> (v: u16) {
        u16_from_le_bytes(bytes)
    }
}

impl Transportable for i16 {
    open spec fn wire_size() -> nat {
        2
    }

    open spec fn encode(self) -> Seq<u8> {
        spec_u16_to_le_bytes(self as u16)
    }

    open spec fn decode(bytes: Seq<u8>) -> i16 {
        spec_u16_from_le_bytes(bytes) as i16
    }

    proof fn lemma_round_trip(v: i16) {
        lemma_auto_spec_u16_to_from_le_bytes();
        assert(spec_u16_to_le_bytes(v as u16).len() == 2);
        assert((v as u16) as i16 == v) by (bit_vector);
    }

    fn size() -> (n: usize) {
        2
    }

    fn to_bytes(&self) -> (v: Vec<u8>) {
        u16_to_le_bytes(*self as u16)
    }

    fn from_bytes(bytes: &[u8]) -> (v: i16) {
        u16_from_le_bytes(bytes) as i16
    }
}

impl Transportable for i64 {
    open spec fn wire_size() -> nat {
        8
    }

    open spec fn encode(self) -> Seq<u8> {
        spec_u64_to_le_bytes(self as u64)
    }

    open spec fn decode(bytes: Seq<u8>) -> i64 {
        spec_u64_from_le_bytes(bytes) as i64
    }

    proof fn lemma_round_trip(v: i64) {
        lemma_auto_spec_u64_to_from_le_bytes();
        assert(spec_u64_to_le_bytes(v as u64).len() == 8);
        assert((v as u64) as i64 == v) by (bit_vector);
    }

    fn size() -> (n: usize) {
        8
    }

    fn to_bytes(&self) -> (v: Vec<u8>) {
        u64_to_le_bytes(*self as u64)
    }

    fn from_bytes(bytes: &[u8]) -> (v: i64) {
        u64_from_le_bytes(bytes) as i64
    }
}

impl Transportable for isize {
    open spec fn wire_size() -> nat {
        8
    }

    open spec fn encode(self) -> Seq<u8> {
        spec_u64_to_le_bytes(self as u64)
    }

    open spec fn decode(bytes: Seq<u8>) -> isize {
        spec_u64_from_le_bytes(bytes) as isize
    }

    proof fn lemma_round_trip(v: isize) {
        lemma_auto_spec_u64_to_from_le_bytes();
        assert(spec_u64_to_le_bytes(v as u64).len() == 8);
        assert((v as u64) as isize == v) by (bit_vector);
    }

    fn size() -> (n: usize) {
        8
    }

    fn to_bytes(&self) -> (v: Vec<u8>) {
        u64_to_le_bytes(*self as u64)
    }

    fn from_bytes(bytes: &[u8]) -> (v: isize) {
        u64_from_le_bytes(bytes) as isize
    }
}

impl Transportable for u128 {
    open spec fn wire_size() -> nat {
        16
    }

    open spec fn encode(self) -> Seq<u8> {
        spec_u128_to_le_bytes(self)
    }

    open spec fn decode(bytes: Seq<u8>) -> u128 {
        spec_u128_from_le_bytes(bytes)
    }

    proof fn lemma_round_trip(v: u128) {
        lemma_auto_spec_u128_to_from_le_bytes();
        assert(spec_u128_to_le_bytes(v).len() == 16);
    }

    fn size() -> (n: usize) {
        16
    }

    fn to_bytes(&self) -> (v: Vec<u8>) {
        u128_to_le_bytes(*self)
    }

    fn from_bytes(bytes: &[u8]) -> (v: u128) {
        u128_from_le_bytes(bytes)
    }
}

impl Transportable for i128 {
    open spec fn wire_size() -> nat {
        16
    }

    open spec fn encode(self) -> Seq<u8> {
        spec_u128_to_le_bytes(self as u128)
    }

    open spec fn decode(bytes: Seq<u8>) -> i128 {
        spec_u128_from_le_bytes(bytes) as i128
    }

    proof fn lemma_round_trip(v: i128) {
        lemma_auto_spec_u128_to_from_le_bytes();
        assert(spec_u128_to_le_bytes(v as u128).len() == 16);
        assert((v as u128) as i128 == v) by (bit_vector);
    }

    fn size() -> (n: usize) {
        16
    }

    fn to_bytes(&self) -> (v: Vec<u8>) {
        u128_to_le_bytes(*self as u128)
    }

    fn from_bytes(bytes: &[u8]) -> (v: i128) {
        u128_from_le_bytes(bytes) as i128
    }
}

/// The bytes of the values of `s`, one after the other.
pub open spec fn encode_all<T: Transportable>(s: Seq<T>) -> Seq<u8>
    decreases s.len(),
{
    if s.len() == 0 {
        Seq::empty()
    } else {
        encode_all(s.drop_last()) + s.last().encode()
    }
}

/// The values that `n` runs of `T::wire_size()` bytes stand for.
pub open spec fn decode_all<T: Transportable>(bytes: Seq<u8>, n: nat) -> Seq<T>
    decreases n,
{
    if n == 0 {
        Seq::empty()
    } else {
        let k = T::wire_size();
        decode_all::<T>(bytes, (n - 1) as nat).push(
            T::decode(bytes.subrange((n - 1) * k, (n * k) as int)),
        )
    }
}

} // verus!
