use vstd::prelude::*;
use crate::pod::{spec_zeros, PodValue};
use crate::pod::scalar::{
    lemma_i32_bytes_round_trip, lemma_i32_round_trip, lemma_u64_bytes_round_trip,
    lemma_u64_round_trip, lemma_zero_bytes, push_i32, push_u64, read_i32, read_u64,
    spec_i32_from_ne_bytes, spec_i32_ne_bytes, spec_u64_from_ne_bytes, spec_u64_ne_bytes,
};

verus! {

/// Byte offset of `b` within `Hands`.
pub const HANDS_OFFSET_B: usize = 0;

/// Byte offset of `p` within `Hands`.
pub const HANDS_OFFSET_P: usize = 4;

/// Byte offset of `r` within `Hands`.
pub const HANDS_OFFSET_R: usize = 8;

/// Byte offset of `s` within `Hands`.
pub const HANDS_OFFSET_S: usize = 12;

/// Byte offset of `b_pos` within `Hands`.
pub const HANDS_OFFSET_B_POS: usize = 16;

/// Byte offset of `p_pos` within `Hands`.
pub const HANDS_OFFSET_P_POS: usize = 24;

/// Size of `Hands` in bytes.
pub const HANDS_SIZE: usize = 32;

/// Extended handle data for input control.
///
/// Binary compatible with C# `Hands` struct (`LayoutKind.Sequential`).
/// Size: 32 bytes. Floating-point fields hold the bit pattern of the value.
#[derive(Debug, Clone, Copy, PartialEq)]
pub struct Hands {
    /// Brake handle position (notch)
    pub b: i32,
    /// Power handle position (notch)
    pub p: i32,
    /// Reverser handle position (-1, 0, 1)
    pub r: i32,
    /// Self-brake handle position
    pub s: i32,
    /// Brake position (0.0 ~ 1.0 analog) (IEEE-754 binary64 bit pattern, as given by `f64::to_bits`)
    pub b_pos: u64,
    /// Power position (0.0 ~ 1.0 analog) (IEEE-754 binary64 bit pattern, as given by `f64::to_bits`)
    pub p_pos: u64,
}

impl Hands {
    /// The value whose fields are all zero.
    pub open spec fn spec_zero() -> Hands {
        Hands { b: 0, p: 0, r: 0, s: 0, b_pos: 0, p_pos: 0 }
    }

    /// The bytes of the all-zero value are all zero.
    pub proof fn lemma_zero_image()
        ensures
            Hands::spec_zero().spec_to_bytes() == spec_zeros(HANDS_SIZE as nat),
    {
        lemma_zero_bytes();
        assert(Hands::spec_zero().spec_to_bytes() =~= spec_zeros(HANDS_SIZE as nat));
    }

}

impl Default for Hands {
    fn default() -> (r: Self)
        ensures
            r == Hands::spec_zero(),
    {
        Hands { b: 0, p: 0, r: 0, s: 0, b_pos: 0, p_pos: 0 }
    }
}

impl PodValue for Hands {
    open spec fn spec_size() -> nat {
        HANDS_SIZE as nat
    }

    open spec fn spec_to_bytes(self) -> Seq<u8> {
        spec_i32_ne_bytes(self.b)
            + spec_i32_ne_bytes(self.p)
            + spec_i32_ne_bytes(self.r)
            + spec_i32_ne_bytes(self.s)
            + spec_u64_ne_bytes(self.b_pos)
            + spec_u64_ne_bytes(self.p_pos)
    }

    open spec fn spec_from_bytes(bytes: Seq<u8>) -> Hands {
        Hands {
            b: spec_i32_from_ne_bytes(bytes.subrange(HANDS_OFFSET_B as int, HANDS_OFFSET_B + 4)),
            p: spec_i32_from_ne_bytes(bytes.subrange(HANDS_OFFSET_P as int, HANDS_OFFSET_P + 4)),
            r: spec_i32_from_ne_bytes(bytes.subrange(HANDS_OFFSET_R as int, HANDS_OFFSET_R + 4)),
            s: spec_i32_from_ne_bytes(bytes.subrange(HANDS_OFFSET_S as int, HANDS_OFFSET_S + 4)),
            b_pos: spec_u64_from_ne_bytes(bytes.subrange(
                HANDS_OFFSET_B_POS as int,
                HANDS_OFFSET_B_POS + 8,
            )),
            p_pos: spec_u64_from_ne_bytes(bytes.subrange(
                HANDS_OFFSET_P_POS as int,
                HANDS_OFFSET_P_POS + 8,
            )),
        }
    }

    proof fn lemma_pod_laws() {
        assert forall|v: Hands| #[trigger] v.spec_to_bytes().len() == HANDS_SIZE by {
            Hands::lemma_image_len(v);
        }
        assert forall|v: Hands| Hands::spec_from_bytes(#[trigger] v.spec_to_bytes()) == v by {
            Hands::lemma_image_round_trip(v);
        }
        assert forall|b: Seq<u8>| b.len() == HANDS_SIZE
            implies #[trigger] Hands::spec_from_bytes(b).spec_to_bytes() == b by {
            Hands::lemma_bytes_round_trip(b);
        }
    }

    fn size_of() -> (r: usize) {
        HANDS_SIZE
    }

    fn zeroed() -> (r: Hands) {
        proof {
            Hands::lemma_zero_image();
        }
        Hands::default()
    }

    fn to_bytes(&self) -> (r: Vec<u8>) {
        proof {
            Hands::lemma_pod_laws();
            lemma_i32_round_trip(self.b);
            lemma_i32_round_trip(self.p);
            lemma_i32_round_trip(self.r);
            lemma_i32_round_trip(self.s);
            lemma_u64_round_trip(self.b_pos);
            lemma_u64_round_trip(self.p_pos);
        }
        let mut v: Vec<u8> = Vec::new();
        push_i32(&mut v, self.b);
        push_i32(&mut v, self.p);
        push_i32(&mut v, self.r);
        push_i32(&mut v, self.s);
        push_u64(&mut v, self.b_pos);
        push_u64(&mut v, self.p_pos);
        assert(v@ =~= self.spec_to_bytes());
        v
    }

    fn from_bytes(bytes: &[u8]) -> (r: Hands) {
        let b = read_i32(bytes, HANDS_OFFSET_B);
        let p = read_i32(bytes, HANDS_OFFSET_P);
        let r = read_i32(bytes, HANDS_OFFSET_R);
        let s = read_i32(bytes, HANDS_OFFSET_S);
        let b_pos = read_u64(bytes, HANDS_OFFSET_B_POS);
        let p_pos = read_u64(bytes, HANDS_OFFSET_P_POS);
        Hands { b: b, p: p, r: r, s: s, b_pos: b_pos, p_pos: p_pos }
    }
}

impl Hands {
    proof fn lemma_image_len(v: Hands)
        ensures
            v.spec_to_bytes().len() == HANDS_SIZE,
    {
        lemma_i32_round_trip(v.b);
        lemma_i32_round_trip(v.p);
        lemma_i32_round_trip(v.r);
        lemma_i32_round_trip(v.s);
        lemma_u64_round_trip(v.b_pos);
        lemma_u64_round_trip(v.p_pos);
    }

    proof fn lemma_image_round_trip(v: Hands)
        ensures
            Hands::spec_from_bytes(v.spec_to_bytes()) == v,
    {
        lemma_i32_round_trip(v.b);
        lemma_i32_round_trip(v.p);
        lemma_i32_round_trip(v.r);
        lemma_i32_round_trip(v.s);
        lemma_u64_round_trip(v.b_pos);
        lemma_u64_round_trip(v.p_pos);
        let b = v.spec_to_bytes();
        assert(b.subrange(HANDS_OFFSET_B as int, HANDS_OFFSET_B + 4) =~= spec_i32_ne_bytes(v.b));
        assert(b.subrange(HANDS_OFFSET_P as int, HANDS_OFFSET_P + 4) =~= spec_i32_ne_bytes(v.p));
        assert(b.subrange(HANDS_OFFSET_R as int, HANDS_OFFSET_R + 4) =~= spec_i32_ne_bytes(v.r));
        assert(b.subrange(HANDS_OFFSET_S as int, HANDS_OFFSET_S + 4) =~= spec_i32_ne_bytes(v.s));
        assert(b.subrange(
            HANDS_OFFSET_B_POS as int,
            HANDS_OFFSET_B_POS + 8,
        ) =~= spec_u64_ne_bytes(v.b_pos));
        assert(b.subrange(
            HANDS_OFFSET_P_POS as int,
            HANDS_OFFSET_P_POS + 8,
        ) =~= spec_u64_ne_bytes(v.p_pos));
    }

    proof fn lemma_bytes_round_trip(b: Seq<u8>)
        requires
            b.len() == HANDS_SIZE,
        ensures
            Hands::spec_from_bytes(b).spec_to_bytes() == b,
    {
        lemma_i32_bytes_round_trip(b.subrange(HANDS_OFFSET_B as int, HANDS_OFFSET_B + 4));
        lemma_i32_bytes_round_trip(b.subrange(HANDS_OFFSET_P as int, HANDS_OFFSET_P + 4));
        lemma_i32_bytes_round_trip(b.subrange(HANDS_OFFSET_R as int, HANDS_OFFSET_R + 4));
        lemma_i32_bytes_round_trip(b.subrange(HANDS_OFFSET_S as int, HANDS_OFFSET_S + 4));
        lemma_u64_bytes_round_trip(b.subrange(HANDS_OFFSET_B_POS as int, HANDS_OFFSET_B_POS + 8));
        lemma_u64_bytes_round_trip(b.subrange(HANDS_OFFSET_P_POS as int, HANDS_OFFSET_P_POS + 8));
        let v = Hands::spec_from_bytes(b);
        lemma_i32_round_trip(v.b);
        lemma_i32_round_trip(v.p);
        lemma_i32_round_trip(v.r);
        lemma_i32_round_trip(v.s);
        lemma_u64_round_trip(v.b_pos);
        lemma_u64_round_trip(v.p_pos);
        assert(v.spec_to_bytes() =~= b);
    }
}

/// Where each field of a `Hands` lies in its 32 bytes, in the order the
/// fields are declared (the C layout that other readers of the region use):
/// the bytes of a value hold each field at its offset, and a value read
/// from bytes takes each field from its offset.
pub proof fn lemma_hands_field_layout(v: Hands, bytes: Seq<u8>)
    ensures
        v.spec_to_bytes().len() == 32,
        v.spec_to_bytes().subrange(0, 4) == spec_i32_ne_bytes(v.b),
        v.spec_to_bytes().subrange(4, 8) == spec_i32_ne_bytes(v.p),
        v.spec_to_bytes().subrange(8, 12) == spec_i32_ne_bytes(v.r),
        v.spec_to_bytes().subrange(12, 16) == spec_i32_ne_bytes(v.s),
        v.spec_to_bytes().subrange(16, 24) == spec_u64_ne_bytes(v.b_pos),
        v.spec_to_bytes().subrange(24, 32) == spec_u64_ne_bytes(v.p_pos),
        bytes.len() == 32 ==> Hands::spec_from_bytes(bytes).b
            == spec_i32_from_ne_bytes(bytes.subrange(0, 4)),
        bytes.len() == 32 ==> Hands::spec_from_bytes(bytes).p
            == spec_i32_from_ne_bytes(bytes.subrange(4, 8)),
        bytes.len() == 32 ==> Hands::spec_from_bytes(bytes).r
            == spec_i32_from_ne_bytes(bytes.subrange(8, 12)),
        bytes.len() == 32 ==> Hands::spec_from_bytes(bytes).s
            == spec_i32_from_ne_bytes(bytes.subrange(12, 16)),
        bytes.len() == 32 ==> Hands::spec_from_bytes(bytes).b_pos
            == spec_u64_from_ne_bytes(bytes.subrange(16, 24)),
        bytes.len() == 32 ==> Hands::spec_from_bytes(bytes).p_pos
            == spec_u64_from_ne_bytes(bytes.subrange(24, 32)),
{
    Hands::lemma_pod_laws();
    lemma_i32_round_trip(v.b);
    lemma_i32_round_trip(v.p);
    lemma_i32_round_trip(v.r);
    lemma_i32_round_trip(v.s);
    lemma_u64_round_trip(v.b_pos);
    lemma_u64_round_trip(v.p_pos);
    assert(v.spec_to_bytes().subrange(0, 4)
        =~= spec_i32_ne_bytes(v.b));
    assert(v.spec_to_bytes().subrange(4, 8)
        =~= spec_i32_ne_bytes(v.p));
    assert(v.spec_to_bytes().subrange(8, 12)
        =~= spec_i32_ne_bytes(v.r));
    assert(v.spec_to_bytes().subrange(12, 16)
        =~= spec_i32_ne_bytes(v.s));
    assert(v.spec_to_bytes().subrange(16, 24)
        =~= spec_u64_ne_bytes(v.b_pos));
    assert(v.spec_to_bytes().subrange(24, 32)
        =~= spec_u64_ne_bytes(v.p_pos));
}

} // verus!
