use vstd::prelude::*;
use crate::pod::{spec_zeros, PodValue};
use crate::pod::scalar::{
    lemma_i32_bytes_round_trip, lemma_i32_round_trip, lemma_zero_bytes, push_i32, read_i32,
    spec_i32_from_ne_bytes, spec_i32_ne_bytes,
};

verus! {

/// Byte offset of `b` within `Spec`.
pub const SPEC_OFFSET_B: usize = 0;

/// Byte offset of `p` within `Spec`.
pub const SPEC_OFFSET_P: usize = 4;

/// Byte offset of `a` within `Spec`.
pub const SPEC_OFFSET_A: usize = 8;

/// Byte offset of `j` within `Spec`.
pub const SPEC_OFFSET_J: usize = 12;

/// Byte offset of `c` within `Spec`.
pub const SPEC_OFFSET_C: usize = 16;

/// Size of `Spec` in bytes.
pub const SPEC_SIZE: usize = 20;

/// Vehicle specification data.
///
/// Binary compatible with C# `Spec` struct (`LayoutKind.Sequential`).
/// Size: 20 bytes.
#[derive(Debug, Clone, Copy, PartialEq, Eq)]
pub struct Spec {
    /// Brake notch count
    pub b: i32,
    /// Power notch count
    pub p: i32,
    /// ATS check notch
    pub a: i32,
    /// Standard max brake notch (B67 equivalent)
    pub j: i32,
    /// Car count
    pub c: i32,
}

impl Spec {
    /// The value whose fields are all zero.
    pub open spec fn spec_zero() -> Spec {
        Spec { b: 0, p: 0, a: 0, j: 0, c: 0 }
    }

    /// The bytes of the all-zero value are all zero.
    pub proof fn lemma_zero_image()
        ensures
            Spec::spec_zero().spec_to_bytes() == spec_zeros(SPEC_SIZE as nat),
    {
        lemma_zero_bytes();
        assert(Spec::spec_zero().spec_to_bytes() =~= spec_zeros(SPEC_SIZE as nat));
    }

}

impl Default for Spec {
    fn default() -> (r: Self)
        ensures
            r == Spec::spec_zero(),
    {
        Spec { b: 0, p: 0, a: 0, j: 0, c: 0 }
    }
}

impl PodValue for Spec {
    open spec fn spec_size() -> nat {
        SPEC_SIZE as nat
    }

    open spec fn spec_to_bytes(self) -> Seq<u8> {
        spec_i32_ne_bytes(self.b)
            + spec_i32_ne_bytes(self.p)
            + spec_i32_ne_bytes(self.a)
            + spec_i32_ne_bytes(self.j)
            + spec_i32_ne_bytes(self.c)
    }

    open spec fn spec_from_bytes(bytes: Seq<u8>) -> Spec {
        Spec {
            b: spec_i32_from_ne_bytes(bytes.subrange(SPEC_OFFSET_B as int, SPEC_OFFSET_B + 4)),
            p: spec_i32_from_ne_bytes(bytes.subrange(SPEC_OFFSET_P as int, SPEC_OFFSET_P + 4)),
            a: spec_i32_from_ne_bytes(bytes.subrange(SPEC_OFFSET_A as int, SPEC_OFFSET_A + 4)),
            j: spec_i32_from_ne_bytes(bytes.subrange(SPEC_OFFSET_J as int, SPEC_OFFSET_J + 4)),
            c: spec_i32_from_ne_bytes(bytes.subrange(SPEC_OFFSET_C as int, SPEC_OFFSET_C + 4)),
        }
    }

    proof fn lemma_pod_laws() {
        assert forall|v: Spec| #[trigger] v.spec_to_bytes().len() == SPEC_SIZE by {
            Spec::lemma_image_len(v);
        }
        assert forall|v: Spec| Spec::spec_from_bytes(#[trigger] v.spec_to_bytes()) == v by {
            Spec::lemma_image_round_trip(v);
        }
        assert forall|b: Seq<u8>| b.len() == SPEC_SIZE
            implies #[trigger] Spec::spec_from_bytes(b).spec_to_bytes() == b by {
            Spec::lemma_bytes_round_trip(b);
        }
    }

    fn size_of() -> (r: usize) {
        SPEC_SIZE
    }

    fn zeroed() -> (r: Spec) {
        proof {
            Spec::lemma_zero_image();
        }
        Spec::default()
    }

    fn to_bytes(&self) -> (r: Vec<u8>) {
        proof {
            Spec::lemma_pod_laws();
            lemma_i32_round_trip(self.b);
            lemma_i32_round_trip(self.p);
            lemma_i32_round_trip(self.a);
            lemma_i32_round_trip(self.j);
            lemma_i32_round_trip(self.c);
        }
        let mut v: Vec<u8> = Vec::new();
        push_i32(&mut v, self.b);
        push_i32(&mut v, self.p);
        push_i32(&mut v, self.a);
        push_i32(&mut v, self.j);
        push_i32(&mut v, self.c);
        assert(v@ =~= self.spec_to_bytes());
        v
    }

    fn from_bytes(bytes: &[u8]) -> (r: Spec) {
        let b = read_i32(bytes, SPEC_OFFSET_B);
        let p = read_i32(bytes, SPEC_OFFSET_P);
        let a = read_i32(bytes, SPEC_OFFSET_A);
        let j = read_i32(bytes, SPEC_OFFSET_J);
        let c = read_i32(bytes, SPEC_OFFSET_C);
        Spec { b: b, p: p, a: a, j: j, c: c }
    }
}

impl Spec {
    proof fn lemma_image_len(v: Spec)
        ensures
            v.spec_to_bytes().len() == SPEC_SIZE,
    {
        lemma_i32_round_trip(v.b);
        lemma_i32_round_trip(v.p);
        lemma_i32_round_trip(v.a);
        lemma_i32_round_trip(v.j);
        lemma_i32_round_trip(v.c);
    }

    proof fn lemma_image_round_trip(v: Spec)
        ensures
            Spec::spec_from_bytes(v.spec_to_bytes()) == v,
    {
        lemma_i32_round_trip(v.b);
        lemma_i32_round_trip(v.p);
        lemma_i32_round_trip(v.a);
        lemma_i32_round_trip(v.j);
        lemma_i32_round_trip(v.c);
        let b = v.spec_to_bytes();
        assert(b.subrange(SPEC_OFFSET_B as int, SPEC_OFFSET_B + 4) =~= spec_i32_ne_bytes(v.b));
        assert(b.subrange(SPEC_OFFSET_P as int, SPEC_OFFSET_P + 4) =~= spec_i32_ne_bytes(v.p));
        assert(b.subrange(SPEC_OFFSET_A as int, SPEC_OFFSET_A + 4) =~= spec_i32_ne_bytes(v.a));
        assert(b.subrange(SPEC_OFFSET_J as int, SPEC_OFFSET_J + 4) =~= spec_i32_ne_bytes(v.j));
        assert(b.subrange(SPEC_OFFSET_C as int, SPEC_OFFSET_C + 4) =~= spec_i32_ne_bytes(v.c));
    }

    proof fn lemma_bytes_round_trip(b: Seq<u8>)
        requires
            b.len() == SPEC_SIZE,
        ensures
            Spec::spec_from_bytes(b).spec_to_bytes() == b,
    {
        lemma_i32_bytes_round_trip(b.subrange(SPEC_OFFSET_B as int, SPEC_OFFSET_B + 4));
        lemma_i32_bytes_round_trip(b.subrange(SPEC_OFFSET_P as int, SPEC_OFFSET_P + 4));
        lemma_i32_bytes_round_trip(b.subrange(SPEC_OFFSET_A as int, SPEC_OFFSET_A + 4));
        lemma_i32_bytes_round_trip(b.subrange(SPEC_OFFSET_J as int, SPEC_OFFSET_J + 4));
        lemma_i32_bytes_round_trip(b.subrange(SPEC_OFFSET_C as int, SPEC_OFFSET_C + 4));
        let v = Spec::spec_from_bytes(b);
        lemma_i32_round_trip(v.b);
        lemma_i32_round_trip(v.p);
        lemma_i32_round_trip(v.a);
        lemma_i32_round_trip(v.j);
        lemma_i32_round_trip(v.c);
        assert(v.spec_to_bytes() =~= b);
    }
}

/// Where each field of a `Spec` lies in its 20 bytes, in the order the
/// fields are declared (the C layout that other readers of the region use):
/// the bytes of a value hold each field at its offset, and a value read
/// from bytes takes each field from its offset.
pub proof fn lemma_spec_field_layout(v: Spec, bytes: Seq<u8>)
    ensures
        v.spec_to_bytes().len() == 20,
        v.spec_to_bytes().subrange(0, 4) == spec_i32_ne_bytes(v.b),
        v.spec_to_bytes().subrange(4, 8) == spec_i32_ne_bytes(v.p),
        v.spec_to_bytes().subrange(8, 12) == spec_i32_ne_bytes(v.a),
        v.spec_to_bytes().subrange(12, 16) == spec_i32_ne_bytes(v.j),
        v.spec_to_bytes().subrange(16, 20) == spec_i32_ne_bytes(v.c),
        bytes.len() == 20 ==> Spec::spec_from_bytes(bytes).b
            == spec_i32_from_ne_bytes(bytes.subrange(0, 4)),
        bytes.len() == 20 ==> Spec::spec_from_bytes(bytes).p
            == spec_i32_from_ne_bytes(bytes.subrange(4, 8)),
        bytes.len() == 20 ==> Spec::spec_from_bytes(bytes).a
            == spec_i32_from_ne_bytes(bytes.subrange(8, 12)),
        bytes.len() == 20 ==> Spec::spec_from_bytes(bytes).j
            == spec_i32_from_ne_bytes(bytes.subrange(12, 16)),
        bytes.len() == 20 ==> Spec::spec_from_bytes(bytes).c
            == spec_i32_from_ne_bytes(bytes.subrange(16, 20)),
{
    Spec::lemma_pod_laws();
    lemma_i32_round_trip(v.b);
    lemma_i32_round_trip(v.p);
    lemma_i32_round_trip(v.a);
    lemma_i32_round_trip(v.j);
    lemma_i32_round_trip(v.c);
    assert(v.spec_to_bytes().subrange(0, 4)
        =~= spec_i32_ne_bytes(v.b));
    assert(v.spec_to_bytes().subrange(4, 8)
        =~= spec_i32_ne_bytes(v.p));
    assert(v.spec_to_bytes().subrange(8, 12)
        =~= spec_i32_ne_bytes(v.a));
    assert(v.spec_to_bytes().subrange(12, 16)
        =~= spec_i32_ne_bytes(v.j));
    assert(v.spec_to_bytes().subrange(16, 20)
        =~= spec_i32_ne_bytes(v.c));
}

} // verus!
