//! Values that are stored in shared memory as a fixed number of bytes.
pub mod scalar;

use vstd::prelude::*;
use self::scalar::{
    lemma_i16_bytes_round_trip, lemma_i16_round_trip, lemma_i32_bytes_round_trip,
    lemma_i32_round_trip, lemma_i64_bytes_round_trip, lemma_i64_round_trip,
    lemma_u16_bytes_round_trip, lemma_u16_round_trip, lemma_u32_bytes_round_trip,
    lemma_u32_round_trip, lemma_u64_bytes_round_trip, lemma_u64_round_trip, lemma_zero_bytes,
    push_i16, push_i32, push_i64, push_u16, push_u32, push_u64, read_i16, read_i32, read_i64,
    read_u16, read_u32, read_u64, spec_i16_from_ne_bytes, spec_i16_ne_bytes,
    spec_i32_from_ne_bytes, spec_i32_ne_bytes, spec_i64_from_ne_bytes, spec_i64_ne_bytes,
    spec_u16_from_ne_bytes, spec_u16_ne_bytes, spec_u32_from_ne_bytes, spec_u32_ne_bytes,
    spec_u64_from_ne_bytes, spec_u64_ne_bytes,
};

verus! {

/// A plain-old-data value: one that lies in shared memory as exactly
/// `spec_size()` bytes, where every byte string of that length is the image
/// of exactly one value.
pub trait PodValue: Sized + Copy {
    /// The number of bytes of a value.
    spec fn spec_size() -> nat;

    /// The bytes of a value, as they lie in shared memory.
    spec fn spec_to_bytes(self) -> Seq<u8>;

    /// The value whose bytes are `bytes` (meaningful for `spec_size()` bytes).
    spec fn spec_from_bytes(bytes: Seq<u8>) -> Self;

    /// Every value has `spec_size()` bytes, the size fits in 32 bits, and the
    /// two conversions are inverse to each other.
    proof fn lemma_pod_laws()
        ensures
            Self::spec_size() <= u32::MAX,
            forall|v: Self| #[trigger] v.spec_to_bytes().len() == Self::spec_size(),
            forall|v: Self| Self::spec_from_bytes(#[trigger] v.spec_to_bytes()) == v,
            forall|b: Seq<u8>|
                b.len() == Self::spec_size() ==> #[trigger] Self::spec_from_bytes(b).spec_to_bytes()
                    == b,
    ;

    /// The number of bytes of a value.
    fn size_of() -> (r: usize)
        ensures
            r == Self::spec_size(),
    ;

    /// The value whose bytes are all zero.
    fn zeroed() -> (r: Self)
        ensures
            r.spec_to_bytes() == Seq::new(Self::spec_size(), |i: int| 0u8),
    ;

    /// The bytes of `self`.
    fn to_bytes(&self) -> (r: Vec<u8>)
        ensures
            r@ == self.spec_to_bytes(),
    ;

    /// The value whose bytes are `bytes`.
    fn from_bytes(bytes: &[u8]) -> (r: Self)
        requires
            bytes@.len() == Self::spec_size(),
        ensures
            r == Self::spec_from_bytes(bytes@),
    ;
}

impl PodValue for u8 {
    open spec fn spec_size() -> nat {
        1
    }

    open spec fn spec_to_bytes(self) -> Seq<u8> {
        seq![self]
    }

    open spec fn spec_from_bytes(bytes: Seq<u8>) -> u8 {
        bytes[0]
    }

    proof fn lemma_pod_laws() {
        assert forall|b: Seq<u8>| b.len() == 1 implies #[trigger] Self::spec_from_bytes(
            b,
        ).spec_to_bytes() == b by {
            assert(seq![b[0]] =~= b);
        }
    }

    fn size_of() -> (r: usize) {
        1
    }

    fn zeroed() -> (r: u8) {
        assert(seq![0u8] =~= Seq::new(1, |i: int| 0u8));
        0
    }

    fn to_bytes(&self) -> (r: Vec<u8>) {
        let mut v: Vec<u8> = Vec::new();
        v.push(*self);
        assert(v@ =~= seq![*self]);
        v
    }

    fn from_bytes(bytes: &[u8]) -> (r: u8) {
        bytes[0]
    }
}

impl PodValue for i32 {
    open spec fn spec_size() -> nat {
        4
    }

    open spec fn spec_to_bytes(self) -> Seq<u8> {
        spec_i32_ne_bytes(self)
    }

    open spec fn spec_from_bytes(bytes: Seq<u8>) -> i32 {
        spec_i32_from_ne_bytes(bytes)
    }

    proof fn lemma_pod_laws() {
        assert forall|v: i32| #[trigger] v.spec_to_bytes().len() == 4 by {
            lemma_i32_round_trip(v);
        }
        assert forall|v: i32| Self::spec_from_bytes(#[trigger] v.spec_to_bytes()) == v by {
            lemma_i32_round_trip(v);
        }
        assert forall|b: Seq<u8>| b.len() == 4 implies #[trigger] Self::spec_from_bytes(
            b,
        ).spec_to_bytes() == b by {
            lemma_i32_bytes_round_trip(b);
        }
    }

    fn size_of() -> (r: usize) {
        4
    }

    fn zeroed() -> (r: i32) {
        proof {
            lemma_zero_bytes();
        }
        0
    }

    fn to_bytes(&self) -> (r: Vec<u8>) {
        let mut v: Vec<u8> = Vec::new();
        push_i32(&mut v, *self);
        assert(v@ =~= spec_i32_ne_bytes(*self));
        v
    }

    fn from_bytes(bytes: &[u8]) -> (r: i32) {
        assert(bytes@.subrange(0, 4) =~= bytes@);
        read_i32(bytes, 0)
    }
}

impl PodValue for u16 {
    open spec fn spec_size() -> nat {
        2
    }

    open spec fn spec_to_bytes(self) -> Seq<u8> {
        spec_u16_ne_bytes(self)
    }

    open spec fn spec_from_bytes(bytes: Seq<u8>) -> u16 {
        spec_u16_from_ne_bytes(bytes)
    }

    proof fn lemma_pod_laws() {
        assert forall|v: u16| #[trigger] v.spec_to_bytes().len() == 2 by {
            lemma_u16_round_trip(v);
        }
        assert forall|v: u16| Self::spec_from_bytes(#[trigger] v.spec_to_bytes()) == v by {
            lemma_u16_round_trip(v);
        }
        assert forall|b: Seq<u8>| b.len() == 2 implies #[trigger] Self::spec_from_bytes(
            b,
        ).spec_to_bytes() == b by {
            lemma_u16_bytes_round_trip(b);
        }
    }

    fn size_of() -> (r: usize) {
        2
    }

    fn zeroed() -> (r: u16) {
        proof {
            lemma_zero_bytes();
        }
        0
    }

    fn to_bytes(&self) -> (r: Vec<u8>) {
        let mut v: Vec<u8> = Vec::new();
        push_u16(&mut v, *self);
        assert(v@ =~= spec_u16_ne_bytes(*self));
        v
    }

    fn from_bytes(bytes: &[u8]) -> (r: u16) {
        assert(bytes@.subrange(0, 2) =~= bytes@);
        read_u16(bytes, 0)
    }
}

impl PodValue for i16 {
    open spec fn spec_size() -> nat {
        2
    }

    open spec fn spec_to_bytes(self) -> Seq<u8> {
        spec_i16_ne_bytes(self)
    }

    open spec fn spec_from_bytes(bytes: Seq<u8>) -> i16 {
        spec_i16_from_ne_bytes(bytes)
    }

    proof fn lemma_pod_laws() {
        assert forall|v: i16| #[trigger] v.spec_to_bytes().len() == 2 by {
            lemma_i16_round_trip(v);
        }
        assert forall|v: i16| Self::spec_from_bytes(#[trigger] v.spec_to_bytes()) == v by {
            lemma_i16_round_trip(v);
        }
        assert forall|b: Seq<u8>| b.len() == 2 implies #[trigger] Self::spec_from_bytes(
            b,
        ).spec_to_bytes() == b by {
            lemma_i16_bytes_round_trip(b);
        }
    }

    fn size_of() -> (r: usize) {
        2
    }

    fn zeroed() -> (r: i16) {
        proof {
            lemma_zero_bytes();
        }
        0
    }

    fn to_bytes(&self) -> (r: Vec<u8>) {
        let mut v: Vec<u8> = Vec::new();
        push_i16(&mut v, *self);
        assert(v@ =~= spec_i16_ne_bytes(*self));
        v
    }

    fn from_bytes(bytes: &[u8]) -> (r: i16) {
        assert(bytes@.subrange(0, 2) =~= bytes@);
        read_i16(bytes, 0)
    }
}

impl PodValue for u32 {
    open spec fn spec_size() -> nat {
        4
    }

    open spec fn spec_to_bytes(self) -> Seq<u8> {
        spec_u32_ne_bytes(self)
    }

    open spec fn spec_from_bytes(bytes: Seq<u8>) -> u32 {
        spec_u32_from_ne_bytes(bytes)
    }

    proof fn lemma_pod_laws() {
        assert forall|v: u32| #[trigger] v.spec_to_bytes().len() == 4 by {
            lemma_u32_round_trip(v);
        }
        assert forall|v: u32| Self::spec_from_bytes(#[trigger] v.spec_to_bytes()) == v by {
            lemma_u32_round_trip(v);
        }
        assert forall|b: Seq<u8>| b.len() == 4 implies #[trigger] Self::spec_from_bytes(
            b,
        ).spec_to_bytes() == b by {
            lemma_u32_bytes_round_trip(b);
        }
    }

    fn size_of() -> (r: usize) {
        4
    }

    fn zeroed() -> (r: u32) {
        proof {
            lemma_zero_bytes();
        }
        0
    }

    fn to_bytes(&self) -> (r: Vec<u8>) {
        let mut v: Vec<u8> = Vec::new();
        push_u32(&mut v, *self);
        assert(v@ =~= spec_u32_ne_bytes(*self));
        v
    }

    fn from_bytes(bytes: &[u8]) -> (r: u32) {
        assert(bytes@.subrange(0, 4) =~= bytes@);
        read_u32(bytes, 0)
    }
}

impl PodValue for u64 {
    open spec fn spec_size() -> nat {
        8
    }

    open spec fn spec_to_bytes(self) -> Seq<u8> {
        spec_u64_ne_bytes(self)
    }

    open spec fn spec_from_bytes(bytes: Seq<u8>) -> u64 {
        spec_u64_from_ne_bytes(bytes)
    }

    proof fn lemma_pod_laws() {
        assert forall|v: u64| #[trigger] v.spec_to_bytes().len() == 8 by {
            lemma_u64_round_trip(v);
        }
        assert forall|v: u64| Self::spec_from_bytes(#[trigger] v.spec_to_bytes()) == v by {
            lemma_u64_round_trip(v);
        }
        assert forall|b: Seq<u8>| b.len() == 8 implies #[trigger] Self::spec_from_bytes(
            b,
        ).spec_to_bytes() == b by {
            lemma_u64_bytes_round_trip(b);
        }
    }

    fn size_of() -> (r: usize) {
        8
    }

    fn zeroed() -> (r: u64) {
        proof {
            lemma_zero_bytes();
        }
        0
    }

    fn to_bytes(&self) -> (r: Vec<u8>) {
        let mut v: Vec<u8> = Vec::new();
        push_u64(&mut v, *self);
        assert(v@ =~= spec_u64_ne_bytes(*self));
        v
    }

    fn from_bytes(bytes: &[u8]) -> (r: u64) {
        assert(bytes@.subrange(0, 8) =~= bytes@);
        read_u64(bytes, 0)
    }
}

impl PodValue for i64 {
    open spec fn spec_size() -> nat {
        8
    }

    open spec fn spec_to_bytes(self) -> Seq<u8> {
        spec_i64_ne_bytes(self)
    }

    open spec fn spec_from_bytes(bytes: Seq<u8>) -> i64 {
        spec_i64_from_ne_bytes(bytes)
    }

    proof fn lemma_pod_laws() {
        assert forall|v: i64| #[trigger] v.spec_to_bytes().len() == 8 by {
            lemma_i64_round_trip(v);
        }
        assert forall|v: i64| Self::spec_from_bytes(#[trigger] v.spec_to_bytes()) == v by {
            lemma_i64_round_trip(v);
        }
        assert forall|b: Seq<u8>| b.len() == 8 implies #[trigger] Self::spec_from_bytes(
            b,
        ).spec_to_bytes() == b by {
            lemma_i64_bytes_round_trip(b);
        }
    }

    fn size_of() -> (r: usize) {
        8
    }

    fn zeroed() -> (r: i64) {
        proof {
            lemma_zero_bytes();
        }
        0
    }

    fn to_bytes(&self) -> (r: Vec<u8>) {
        let mut v: Vec<u8> = Vec::new();
        push_i64(&mut v, *self);
        assert(v@ =~= spec_i64_ne_bytes(*self));
        v
    }

    fn from_bytes(bytes: &[u8]) -> (r: i64) {
        assert(bytes@.subrange(0, 8) =~= bytes@);
        read_i64(bytes, 0)
    }
}

/// `s` with `data` written over it from `pos` on.
pub open spec fn spec_update_bytes(s: Seq<u8>, pos: int, data: Seq<u8>) -> Seq<u8> {
    s.subrange(0, pos) + data + s.subrange(pos + data.len(), s.len() as int)
}

/// `n` zero bytes.
pub open spec fn spec_zeros(n: nat) -> Seq<u8> {
    Seq::new(n, |i: int| 0u8)
}

/// The bytes of the elements of `v`, one after the other.
pub open spec fn spec_encode_seq<T: PodValue>(v: Seq<T>) -> Seq<u8>
    decreases v.len(),
{
    if v.len() == 0 {
        Seq::empty()
    } else {
        spec_encode_seq(v.drop_last()) + v.last().spec_to_bytes()
    }
}

/// The `n` values whose bytes lie one after the other at the start of `b`.
pub open spec fn spec_decode_seq<T: PodValue>(b: Seq<u8>, n: nat) -> Seq<T> {
    Seq::new(
        n,
        |i: int| T::spec_from_bytes(b.subrange(i * T::spec_size(), i * T::spec_size() + T::spec_size())),
    )
}

/// Element `i` of `n` elements of size `s` lies within the first `n * s` bytes.
pub proof fn lemma_slot_in_range(i: int, n: int, s: int)
    requires
        0 <= i < n,
        0 <= s,
    ensures
        0 <= i * s,
        i * s + s <= n * s,
        (i + 1) * s == i * s + s,
{
    assert(0 <= i * s) by (nonlinear_arith)
        requires
            0 <= i,
            0 <= s,
    ;
    assert(i * s + s <= n * s) by (nonlinear_arith)
        requires
            i < n,
            0 <= s,
    ;
    assert((i + 1) * s == i * s + s) by (nonlinear_arith);
}

/// The bytes of a sequence of values are `len * size` many.
pub proof fn lemma_encode_seq_len<T: PodValue>(v: Seq<T>)
    ensures
        spec_encode_seq(v).len() == v.len() * T::spec_size(),
    decreases v.len(),
{
    T::lemma_pod_laws();
    if v.len() > 0 {
        lemma_encode_seq_len(v.drop_last());
        let n = v.len() as int;
        let s = T::spec_size() as int;
        assert((n - 1) * s + s == n * s) by (nonlinear_arith);
    }
}

/// Element `i` of a sequence lies at bytes `i * size .. (i + 1) * size`.
pub proof fn lemma_encode_seq_element<T: PodValue>(v: Seq<T>, i: int)
    requires
        0 <= i < v.len(),
    ensures
        spec_encode_seq(v).subrange(i * T::spec_size(), i * T::spec_size() + T::spec_size())
            == v[i].spec_to_bytes(),
    decreases v.len(),
{
    T::lemma_pod_laws();
    let s = T::spec_size() as int;
    let n = v.len() as int;
    lemma_encode_seq_len(v.drop_last());
    lemma_slot_in_range(i, n, s);
    if i < n - 1 {
        lemma_encode_seq_element(v.drop_last(), i);
        lemma_slot_in_range(i, n - 1, s);
        assert(spec_encode_seq(v).subrange(i * s, i * s + s) =~= spec_encode_seq(
            v.drop_last(),
        ).subrange(i * s, i * s + s));
    } else {
        assert(spec_encode_seq(v).subrange(i * s, i * s + s) =~= v.last().spec_to_bytes());
    }
}

/// Decoding the bytes of a sequence gives the sequence back.
pub proof fn lemma_decode_encode_seq<T: PodValue>(v: Seq<T>)
    ensures
        spec_decode_seq::<T>(spec_encode_seq(v), v.len()) == v,
{
    T::lemma_pod_laws();
    assert forall|i: int| 0 <= i < v.len() implies #[trigger] spec_decode_seq::<T>(
        spec_encode_seq(v),
        v.len(),
    )[i] == v[i] by {
        lemma_encode_seq_element(v, i);
    }
    assert(spec_decode_seq::<T>(spec_encode_seq(v), v.len()) =~= v);
}

/// Decoding only looks at the first `n * size` bytes.
pub proof fn lemma_decode_seq_prefix<T: PodValue>(b: Seq<u8>, c: Seq<u8>, n: nat)
    requires
        n * T::spec_size() <= b.len(),
        n * T::spec_size() <= c.len(),
        b.subrange(0, (n * T::spec_size()) as int) == c.subrange(0, (n * T::spec_size()) as int),
    ensures
        spec_decode_seq::<T>(b, n) == spec_decode_seq::<T>(c, n),
{
    let s = T::spec_size() as int;
    assert forall|i: int| 0 <= i < n implies #[trigger] spec_decode_seq::<T>(b, n)[i]
        == spec_decode_seq::<T>(c, n)[i] by {
        lemma_slot_in_range(i, n as int, s);
        assert(b.subrange(i * s, i * s + s) =~= b.subrange(0, n * s).subrange(i * s, i * s + s));
        assert(c.subrange(i * s, i * s + s) =~= c.subrange(0, n * s).subrange(i * s, i * s + s));
    }
    assert(spec_decode_seq::<T>(b, n) =~= spec_decode_seq::<T>(c, n));
}

/// Writing the bytes of `x` over element `i` replaces that element by `x`
/// and leaves the others as they were.
pub proof fn lemma_decode_seq_update<T: PodValue>(b: Seq<u8>, n: nat, i: int, x: T)
    requires
        n * T::spec_size() <= b.len(),
        0 <= i < n,
    ensures
        spec_decode_seq::<T>(spec_update_bytes(b, i * T::spec_size(), x.spec_to_bytes()), n)
            == spec_decode_seq::<T>(b, n).update(i, x),
{
    T::lemma_pod_laws();
    let s = T::spec_size() as int;
    let b2 = spec_update_bytes(b, i * s, x.spec_to_bytes());
    lemma_slot_in_range(i, n as int, s);
    assert forall|j: int| 0 <= j < n implies #[trigger] spec_decode_seq::<T>(b2, n)[j]
        == spec_decode_seq::<T>(b, n).update(i, x)[j] by {
        lemma_slot_in_range(j, n as int, s);
        if j == i {
            assert(b2.subrange(j * s, j * s + s) =~= x.spec_to_bytes());
        } else if j < i {
            assert(j * s + s <= i * s) by (nonlinear_arith)
                requires
                    j < i,
                    0 <= s,
            ;
            assert(b2.subrange(j * s, j * s + s) =~= b.subrange(j * s, j * s + s));
        } else {
            assert(i * s + s <= j * s) by (nonlinear_arith)
                requires
                    i < j,
                    0 <= s,
            ;
            assert(b2.subrange(j * s, j * s + s) =~= b.subrange(j * s, j * s + s));
        }
    }
    assert(spec_decode_seq::<T>(b2, n) =~= spec_decode_seq::<T>(b, n).update(i, x));
}

} // verus!
