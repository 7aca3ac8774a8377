use vstd::prelude::*;
use crate::pod::{spec_zeros, PodValue};
use crate::pod::scalar::{
    lemma_i32_bytes_round_trip, lemma_i32_round_trip, lemma_zero_bytes, push_i32, read_i32,
    spec_i32_from_ne_bytes, spec_i32_ne_bytes,
};

verus! {

/// Byte offset of `b` within `Hand`.
pub const HAND_OFFSET_B: usize = 0;

/// Byte offset of `p` within `Hand`.
pub const HAND_OFFSET_P: usize = 4;

/// Byte offset of `r` within `Hand`.
pub const HAND_OFFSET_R: usize = 8;

/// Byte offset of `c` within `Hand`.
pub const HAND_OFFSET_C: usize = 12;

/// Size of `Hand` in bytes.
pub const HAND_SIZE: usize = 16;

/// Handle position data.
///
/// Binary compatible with C# `Hand` struct (`LayoutKind.Sequential`).
/// Size: 16 bytes.
#[derive(Debug, Clone, Copy, PartialEq, Eq)]
pub struct Hand {
    /// Brake notch position
    pub b: i32,
    /// Power notch position
    pub p: i32,
    /// Reverser position (-1: backward, 0: neutral, 1: forward)
    pub r: i32,
    /// Constant speed control (0: continue, 1: enable, 2: disable)
    pub c: i32,
}

impl Hand {
    /// The value whose fields are all zero.
    pub open spec fn spec_zero() -> Hand {
        Hand { b: 0, p: 0, r: 0, c: 0 }
    }

    /// The bytes of the all-zero value are all zero.
    pub proof fn lemma_zero_image()
        ensures
            Hand::spec_zero().spec_to_bytes() == spec_zeros(HAND_SIZE as nat),
    {
        lemma_zero_bytes();
        assert(Hand::spec_zero().spec_to_bytes() =~= spec_zeros(HAND_SIZE as nat));
    }

}

impl Default for Hand {
    fn default() -> (r: Self)
        ensures
            r == Hand::spec_zero(),
    {
        Hand { b: 0, p: 0, r: 0, c: 0 }
    }
}

impl PodValue for Hand {
    open spec fn spec_size() -> nat {
        HAND_SIZE as nat
    }

    open spec fn spec_to_bytes(self) -> Seq<u8> {
        spec_i32_ne_bytes(self.b)
            + spec_i32_ne_bytes(self.p)
            + spec_i32_ne_bytes(self.r)
            + spec_i32_ne_bytes(self.c)
    }

    open spec fn spec_from_bytes(bytes: Seq<u8>) -> Hand {
        Hand {
            b: spec_i32_from_ne_bytes(bytes.subrange(HAND_OFFSET_B as int, HAND_OFFSET_B + 4)),
            p: spec_i32_from_ne_bytes(bytes.subrange(HAND_OFFSET_P as int, HAND_OFFSET_P + 4)),
            r: spec_i32_from_ne_bytes(bytes.subrange(HAND_OFFSET_R as int, HAND_OFFSET_R + 4)),
            c: spec_i32_from_ne_bytes(bytes.subrange(HAND_OFFSET_C as int, HAND_OFFSET_C + 4)),
        }
    }

    proof fn lemma_pod_laws() {
        assert forall|v: Hand| #[trigger] v.spec_to_bytes().len() == HAND_SIZE by {
            Hand::lemma_image_len(v);
        }
        assert forall|v: Hand| Hand::spec_from_bytes(#[trigger] v.spec_to_bytes()) == v by {
            Hand::lemma_image_round_trip(v);
        }
        assert forall|b: Seq<u8>| b.len() == HAND_SIZE
            implies #[trigger] Hand::spec_from_bytes(b).spec_to_bytes() == b by {
            Hand::lemma_bytes_round_trip(b);
        }
    }

    fn size_of() -> (r: usize) {
        HAND_SIZE
    }

    fn zeroed() -> (r: Hand) {
        proof {
            Hand::lemma_zero_image();
        }
        Hand::default()
    }

    fn to_bytes(&self) -> (r: Vec<u8>) {
        proof {
            Hand::lemma_pod_laws();
            lemma_i32_round_trip(self.b);
            lemma_i32_round_trip(self.p);
            lemma_i32_round_trip(self.r);
            lemma_i32_round_trip(self.c);
        }
        let mut v: Vec<u8> = Vec::new();
        push_i32(&mut v, self.b);
        push_i32(&mut v, self.p);
        push_i32(&mut v, self.r);
        push_i32(&mut v, self.c);
        assert(v@ =~= self.spec_to_bytes());
        v
    }

    fn from_bytes(bytes: &[u8]) -> (r: Hand) {
        let b = read_i32(bytes, HAND_OFFSET_B);
        let p = read_i32(bytes, HAND_OFFSET_P);
        let r = read_i32(bytes, HAND_OFFSET_R);
        let c = read_i32(bytes, HAND_OFFSET_C);
        Hand { b: b, p: p, r: r, c: c }
    }
}

impl Hand {
    proof fn lemma_image_len(v: Hand)
        ensures
            v.spec_to_bytes().len() == HAND_SIZE,
    {
        lemma_i32_round_trip(v.b);
        lemma_i32_round_trip(v.p);
        lemma_i32_round_trip(v.r);
        lemma_i32_round_trip(v.c);
    }

    proof fn lemma_image_round_trip(v: Hand)
        ensures
            Hand::spec_from_bytes(v.spec_to_bytes()) == v,
    {
        lemma_i32_round_trip(v.b);
        lemma_i32_round_trip(v.p);
        lemma_i32_round_trip(v.r);
        lemma_i32_round_trip(v.c);
        let b = v.spec_to_bytes();
        assert(b.subrange(HAND_OFFSET_B as int, HAND_OFFSET_B + 4) =~= spec_i32_ne_bytes(v.b));
        assert(b.subrange(HAND_OFFSET_P as int, HAND_OFFSET_P + 4) =~= spec_i32_ne_bytes(v.p));
        assert(b.subrange(HAND_OFFSET_R as int, HAND_OFFSET_R + 4) =~= spec_i32_ne_bytes(v.r));
        assert(b.subrange(HAND_OFFSET_C as int, HAND_OFFSET_C + 4) =~= spec_i32_ne_bytes(v.c));
    }

    proof fn lemma_bytes_round_trip(b: Seq<u8>)
        requires
            b.len() == HAND_SIZE,
        ensures
            Hand::spec_from_bytes(b).spec_to_bytes() == b,
    {
        lemma_i32_bytes_round_trip(b.subrange(HAND_OFFSET_B as int, HAND_OFFSET_B + 4));
        lemma_i32_bytes_round_trip(b.subrange(HAND_OFFSET_P as int, HAND_OFFSET_P + 4));
        lemma_i32_bytes_round_trip(b.subrange(HAND_OFFSET_R as int, HAND_OFFSET_R + 4));
        lemma_i32_bytes_round_trip(b.subrange(HAND_OFFSET_C as int, HAND_OFFSET_C + 4));
        let v = Hand::spec_from_bytes(b);
        lemma_i32_round_trip(v.b);
        lemma_i32_round_trip(v.p);
        lemma_i32_round_trip(v.r);
        lemma_i32_round_trip(v.c);
        assert(v.spec_to_bytes() =~= b);
    }
}

/// Where each field of a `Hand` lies in its 16 bytes, in the order the
/// fields are declared (the C layout that other readers of the region use):
/// the bytes of a value hold each field at its offset, and a value read
/// from bytes takes each field from its offset.
pub proof fn lemma_hand_field_layout(v: Hand, bytes: Seq<u8>)
    ensures
        v.spec_to_bytes().len() == 16,
        v.spec_to_bytes().subrange(0, 4) == spec_i32_ne_bytes(v.b),
        v.spec_to_bytes().subrange(4, 8) == spec_i32_ne_bytes(v.p),
        v.spec_to_bytes().subrange(8, 12) == spec_i32_ne_bytes(v.r),
        v.spec_to_bytes().subrange(12, 16) == spec_i32_ne_bytes(v.c),
        bytes.len() == 16 ==> Hand::spec_from_bytes(bytes).b
            == spec_i32_from_ne_bytes(bytes.subrange(0, 4)),
        bytes.len() == 16 ==> Hand::spec_from_bytes(bytes).p
            == spec_i32_from_ne_bytes(bytes.subrange(4, 8)),
        bytes.len() == 16 ==> Hand::spec_from_bytes(bytes).r
            == spec_i32_from_ne_bytes(bytes.subrange(8, 12)),
        bytes.len() == 16 ==> Hand::spec_from_bytes(bytes).c
            == spec_i32_from_ne_bytes(bytes.subrange(12, 16)),
{
    Hand::lemma_pod_laws();
    lemma_i32_round_trip(v.b);
    lemma_i32_round_trip(v.p);
    lemma_i32_round_trip(v.r);
    lemma_i32_round_trip(v.c);
    assert(v.spec_to_bytes().subrange(0, 4)
        =~= spec_i32_ne_bytes(v.b));
    assert(v.spec_to_bytes().subrange(4, 8)
        =~= spec_i32_ne_bytes(v.p));
    assert(v.spec_to_bytes().subrange(8, 12)
        =~= spec_i32_ne_bytes(v.r));
    assert(v.spec_to_bytes().subrange(12, 16)
        =~= spec_i32_ne_bytes(v.c));
}

} // verus!
