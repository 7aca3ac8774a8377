use vstd::prelude::*;
use crate::pod::{spec_zeros, PodValue};
use crate::pod::scalar::{
    lemma_i32_bytes_round_trip, lemma_i32_round_trip, lemma_u32_bytes_round_trip,
    lemma_u32_round_trip, lemma_u64_bytes_round_trip, lemma_u64_round_trip, lemma_zero_bytes,
    push_i32, push_u32, push_u64, read_i32, read_u32, read_u64, spec_i32_from_ne_bytes,
    spec_i32_ne_bytes, spec_u32_from_ne_bytes, spec_u32_ne_bytes, spec_u64_from_ne_bytes,
    spec_u64_ne_bytes,
};

verus! {

/// Byte offset of `z` within `State`.
pub const STATE_OFFSET_Z: usize = 0;

/// Byte offset of `v` within `State`.
pub const STATE_OFFSET_V: usize = 8;

/// Byte offset of `t` within `State`.
pub const STATE_OFFSET_T: usize = 12;

/// Byte offset of `bc` within `State`.
pub const STATE_OFFSET_BC: usize = 16;

/// Byte offset of `mr` within `State`.
pub const STATE_OFFSET_MR: usize = 20;

/// Byte offset of `er` within `State`.
pub const STATE_OFFSET_ER: usize = 24;

/// Byte offset of `bp` within `State`.
pub const STATE_OFFSET_BP: usize = 28;

/// Byte offset of `sap` within `State`.
pub const STATE_OFFSET_SAP: usize = 32;

/// Byte offset of `i` within `State`.
pub const STATE_OFFSET_I: usize = 36;

/// Size of `State` in bytes.
pub const STATE_SIZE: usize = 40;

/// Vehicle state data.
///
/// Binary compatible with C# `State` struct (`LayoutKind.Sequential`).
/// Size: 40 bytes. Floating-point fields hold the bit pattern of the value.
#[derive(Debug, Clone, Copy, PartialEq)]
pub struct State {
    /// Location [m] (IEEE-754 binary64 bit pattern, as given by `f64::to_bits`)
    pub z: u64,
    /// Speed [km/h] (IEEE-754 binary32 bit pattern, as given by `f32::to_bits`)
    pub v: u32,
    /// Time [ms from midnight]
    pub t: i32,
    /// BC pressure [kPa] (IEEE-754 binary32 bit pattern, as given by `f32::to_bits`)
    pub bc: u32,
    /// MR pressure [kPa] (IEEE-754 binary32 bit pattern, as given by `f32::to_bits`)
    pub mr: u32,
    /// ER pressure [kPa] (IEEE-754 binary32 bit pattern, as given by `f32::to_bits`)
    pub er: u32,
    /// BP pressure [kPa] (IEEE-754 binary32 bit pattern, as given by `f32::to_bits`)
    pub bp: u32,
    /// SAP pressure [kPa] (IEEE-754 binary32 bit pattern, as given by `f32::to_bits`)
    pub sap: u32,
    /// Current [A] (IEEE-754 binary32 bit pattern, as given by `f32::to_bits`)
    pub i: u32,
}

impl State {
    /// The value whose fields are all zero.
    pub open spec fn spec_zero() -> State {
        State { z: 0, v: 0, t: 0, bc: 0, mr: 0, er: 0, bp: 0, sap: 0, i: 0 }
    }

    /// The bytes of the all-zero value are all zero.
    pub proof fn lemma_zero_image()
        ensures
            State::spec_zero().spec_to_bytes() == spec_zeros(STATE_SIZE as nat),
    {
        lemma_zero_bytes();
        assert(State::spec_zero().spec_to_bytes() =~= spec_zeros(STATE_SIZE as nat));
    }

}

impl Default for State {
    fn default() -> (r: Self)
        ensures
            r == State::spec_zero(),
    {
        State { z: 0, v: 0, t: 0, bc: 0, mr: 0, er: 0, bp: 0, sap: 0, i: 0 }
    }
}

impl PodValue for State {
    open spec fn spec_size() -> nat {
        STATE_SIZE as nat
    }

    open spec fn spec_to_bytes(self) -> Seq<u8> {
        spec_u64_ne_bytes(self.z)
            + spec_u32_ne_bytes(self.v)
            + spec_i32_ne_bytes(self.t)
            + spec_u32_ne_bytes(self.bc)
            + spec_u32_ne_bytes(self.mr)
            + spec_u32_ne_bytes(self.er)
            + spec_u32_ne_bytes(self.bp)
            + spec_u32_ne_bytes(self.sap)
            + spec_u32_ne_bytes(self.i)
    }

    open spec fn spec_from_bytes(bytes: Seq<u8>) -> State {
        State {
            z: spec_u64_from_ne_bytes(bytes.subrange(STATE_OFFSET_Z as int, STATE_OFFSET_Z + 8)),
            v: spec_u32_from_ne_bytes(bytes.subrange(STATE_OFFSET_V as int, STATE_OFFSET_V + 4)),
            t: spec_i32_from_ne_bytes(bytes.subrange(STATE_OFFSET_T as int, STATE_OFFSET_T + 4)),
            bc: spec_u32_from_ne_bytes(bytes.subrange(STATE_OFFSET_BC as int, STATE_OFFSET_BC + 4)),
            mr: spec_u32_from_ne_bytes(bytes.subrange(STATE_OFFSET_MR as int, STATE_OFFSET_MR + 4)),
            er: spec_u32_from_ne_bytes(bytes.subrange(STATE_OFFSET_ER as int, STATE_OFFSET_ER + 4)),
            bp: spec_u32_from_ne_bytes(bytes.subrange(STATE_OFFSET_BP as int, STATE_OFFSET_BP + 4)),
            sap: spec_u32_from_ne_bytes(bytes.subrange(
                STATE_OFFSET_SAP as int,
                STATE_OFFSET_SAP + 4,
            )),
            i: spec_u32_from_ne_bytes(bytes.subrange(STATE_OFFSET_I as int, STATE_OFFSET_I + 4)),
        }
    }

    proof fn lemma_pod_laws() {
        assert forall|v: State| #[trigger] v.spec_to_bytes().len() == STATE_SIZE by {
            State::lemma_image_len(v);
        }
        assert forall|v: State| State::spec_from_bytes(#[trigger] v.spec_to_bytes()) == v by {
            State::lemma_image_round_trip(v);
        }
        assert forall|b: Seq<u8>| b.len() == STATE_SIZE
            implies #[trigger] State::spec_from_bytes(b).spec_to_bytes() == b by {
            State::lemma_bytes_round_trip(b);
        }
    }

    fn size_of() -> (r: usize) {
        STATE_SIZE
    }

    fn zeroed() -> (r: State) {
        proof {
            State::lemma_zero_image();
        }
        State::default()
    }

    fn to_bytes(&self) -> (r: Vec<u8>) {
        proof {
            State::lemma_pod_laws();
            lemma_u64_round_trip(self.z);
            lemma_u32_round_trip(self.v);
            lemma_i32_round_trip(self.t);
            lemma_u32_round_trip(self.bc);
            lemma_u32_round_trip(self.mr);
            lemma_u32_round_trip(self.er);
            lemma_u32_round_trip(self.bp);
            lemma_u32_round_trip(self.sap);
            lemma_u32_round_trip(self.i);
        }
        let mut v: Vec<u8> = Vec::new();
        push_u64(&mut v, self.z);
        push_u32(&mut v, self.v);
        push_i32(&mut v, self.t);
        push_u32(&mut v, self.bc);
        push_u32(&mut v, self.mr);
        push_u32(&mut v, self.er);
        push_u32(&mut v, self.bp);
        push_u32(&mut v, self.sap);
        push_u32(&mut v, self.i);
        assert(v@ =~= self.spec_to_bytes());
        v
    }

    fn from_bytes(bytes: &[u8]) -> (r: State) {
        let z = read_u64(bytes, STATE_OFFSET_Z);
        let v = read_u32(bytes, STATE_OFFSET_V);
        let t = read_i32(bytes, STATE_OFFSET_T);
        let bc = read_u32(bytes, STATE_OFFSET_BC);
        let mr = read_u32(bytes, STATE_OFFSET_MR);
        let er = read_u32(bytes, STATE_OFFSET_ER);
        let bp = read_u32(bytes, STATE_OFFSET_BP);
        let sap = read_u32(bytes, STATE_OFFSET_SAP);
        let i = read_u32(bytes, STATE_OFFSET_I);
        State { z: z, v: v, t: t, bc: bc, mr: mr, er: er, bp: bp, sap: sap, i: i }
    }
}

impl State {
    proof fn lemma_image_len(v: State)
        ensures
            v.spec_to_bytes().len() == STATE_SIZE,
    {
        lemma_u64_round_trip(v.z);
        lemma_u32_round_trip(v.v);
        lemma_i32_round_trip(v.t);
        lemma_u32_round_trip(v.bc);
        lemma_u32_round_trip(v.mr);
        lemma_u32_round_trip(v.er);
        lemma_u32_round_trip(v.bp);
        lemma_u32_round_trip(v.sap);
        lemma_u32_round_trip(v.i);
    }

    proof fn lemma_image_round_trip(v: State)
        ensures
            State::spec_from_bytes(v.spec_to_bytes()) == v,
    {
        lemma_u64_round_trip(v.z);
        lemma_u32_round_trip(v.v);
        lemma_i32_round_trip(v.t);
        lemma_u32_round_trip(v.bc);
        lemma_u32_round_trip(v.mr);
        lemma_u32_round_trip(v.er);
        lemma_u32_round_trip(v.bp);
        lemma_u32_round_trip(v.sap);
        lemma_u32_round_trip(v.i);
        let b = v.spec_to_bytes();
        assert(b.subrange(STATE_OFFSET_Z as int, STATE_OFFSET_Z + 8) =~= spec_u64_ne_bytes(v.z));
        assert(b.subrange(STATE_OFFSET_V as int, STATE_OFFSET_V + 4) =~= spec_u32_ne_bytes(v.v));
        assert(b.subrange(STATE_OFFSET_T as int, STATE_OFFSET_T + 4) =~= spec_i32_ne_bytes(v.t));
        assert(b.subrange(STATE_OFFSET_BC as int, STATE_OFFSET_BC + 4) =~= spec_u32_ne_bytes(v.bc));
        assert(b.subrange(STATE_OFFSET_MR as int, STATE_OFFSET_MR + 4) =~= spec_u32_ne_bytes(v.mr));
        assert(b.subrange(STATE_OFFSET_ER as int, STATE_OFFSET_ER + 4) =~= spec_u32_ne_bytes(v.er));
        assert(b.subrange(STATE_OFFSET_BP as int, STATE_OFFSET_BP + 4) =~= spec_u32_ne_bytes(v.bp));
        assert(b.subrange(
            STATE_OFFSET_SAP as int,
            STATE_OFFSET_SAP + 4,
        ) =~= spec_u32_ne_bytes(v.sap));
        assert(b.subrange(STATE_OFFSET_I as int, STATE_OFFSET_I + 4) =~= spec_u32_ne_bytes(v.i));
    }

    proof fn lemma_bytes_round_trip(b: Seq<u8>)
        requires
            b.len() == STATE_SIZE,
        ensures
            State::spec_from_bytes(b).spec_to_bytes() == b,
    {
        lemma_u64_bytes_round_trip(b.subrange(STATE_OFFSET_Z as int, STATE_OFFSET_Z + 8));
        lemma_u32_bytes_round_trip(b.subrange(STATE_OFFSET_V as int, STATE_OFFSET_V + 4));
        lemma_i32_bytes_round_trip(b.subrange(STATE_OFFSET_T as int, STATE_OFFSET_T + 4));
        lemma_u32_bytes_round_trip(b.subrange(STATE_OFFSET_BC as int, STATE_OFFSET_BC + 4));
        lemma_u32_bytes_round_trip(b.subrange(STATE_OFFSET_MR as int, STATE_OFFSET_MR + 4));
        lemma_u32_bytes_round_trip(b.subrange(STATE_OFFSET_ER as int, STATE_OFFSET_ER + 4));
        lemma_u32_bytes_round_trip(b.subrange(STATE_OFFSET_BP as int, STATE_OFFSET_BP + 4));
        lemma_u32_bytes_round_trip(b.subrange(STATE_OFFSET_SAP as int, STATE_OFFSET_SAP + 4));
        lemma_u32_bytes_round_trip(b.subrange(STATE_OFFSET_I as int, STATE_OFFSET_I + 4));
        let v = State::spec_from_bytes(b);
        lemma_u64_round_trip(v.z);
        lemma_u32_round_trip(v.v);
        lemma_i32_round_trip(v.t);
        lemma_u32_round_trip(v.bc);
        lemma_u32_round_trip(v.mr);
        lemma_u32_round_trip(v.er);
        lemma_u32_round_trip(v.bp);
        lemma_u32_round_trip(v.sap);
        lemma_u32_round_trip(v.i);
        assert(v.spec_to_bytes() =~= b);
    }
}

/// Where each field of a `State` lies in its 40 bytes, in the order the
/// fields are declared (the C layout that other readers of the region use):
/// the bytes of a value hold each field at its offset, and a value read
/// from bytes takes each field from its offset.
pub proof fn lemma_state_field_layout(v: State, bytes: Seq<u8>)
    ensures
        v.spec_to_bytes().len() == 40,
        v.spec_to_bytes().subrange(0, 8) == spec_u64_ne_bytes(v.z),
        v.spec_to_bytes().subrange(8, 12) == spec_u32_ne_bytes(v.v),
        v.spec_to_bytes().subrange(12, 16) == spec_i32_ne_bytes(v.t),
        v.spec_to_bytes().subrange(16, 20) == spec_u32_ne_bytes(v.bc),
        v.spec_to_bytes().subrange(20, 24) == spec_u32_ne_bytes(v.mr),
        v.spec_to_bytes().subrange(24, 28) == spec_u32_ne_bytes(v.er),
        v.spec_to_bytes().subrange(28, 32) == spec_u32_ne_bytes(v.bp),
        v.spec_to_bytes().subrange(32, 36) == spec_u32_ne_bytes(v.sap),
        v.spec_to_bytes().subrange(36, 40) == spec_u32_ne_bytes(v.i),
        bytes.len() == 40 ==> State::spec_from_bytes(bytes).z
            == spec_u64_from_ne_bytes(bytes.subrange(0, 8)),
        bytes.len() == 40 ==> State::spec_from_bytes(bytes).v
            == spec_u32_from_ne_bytes(bytes.subrange(8, 12)),
        bytes.len() == 40 ==> State::spec_from_bytes(bytes).t
            == spec_i32_from_ne_bytes(bytes.subrange(12, 16)),
        bytes.len() == 40 ==> State::spec_from_bytes(bytes).bc
            == spec_u32_from_ne_bytes(bytes.subrange(16, 20)),
        bytes.len() == 40 ==> State::spec_from_bytes(bytes).mr
            == spec_u32_from_ne_bytes(bytes.subrange(20, 24)),
        bytes.len() == 40 ==> State::spec_from_bytes(bytes).er
            == spec_u32_from_ne_bytes(bytes.subrange(24, 28)),
        bytes.len() == 40 ==> State::spec_from_bytes(bytes).bp
            == spec_u32_from_ne_bytes(bytes.subrange(28, 32)),
        bytes.len() == 40 ==> State::spec_from_bytes(bytes).sap
            == spec_u32_from_ne_bytes(bytes.subrange(32, 36)),
        bytes.len() == 40 ==> State::spec_from_bytes(bytes).i
            == spec_u32_from_ne_bytes(bytes.subrange(36, 40)),
{
    State::lemma_pod_laws();
    lemma_u64_round_trip(v.z);
    lemma_u32_round_trip(v.v);
    lemma_i32_round_trip(v.t);
    lemma_u32_round_trip(v.bc);
    lemma_u32_round_trip(v.mr);
    lemma_u32_round_trip(v.er);
    lemma_u32_round_trip(v.bp);
    lemma_u32_round_trip(v.sap);
    lemma_u32_round_trip(v.i);
    assert(v.spec_to_bytes().subrange(0, 8)
        =~= spec_u64_ne_bytes(v.z));
    assert(v.spec_to_bytes().subrange(8, 12)
        =~= spec_u32_ne_bytes(v.v));
    assert(v.spec_to_bytes().subrange(12, 16)
        =~= spec_i32_ne_bytes(v.t));
    assert(v.spec_to_bytes().subrange(16, 20)
        =~= spec_u32_ne_bytes(v.bc));
    assert(v.spec_to_bytes().subrange(20, 24)
        =~= spec_u32_ne_bytes(v.mr));
    assert(v.spec_to_bytes().subrange(24, 28)
        =~= spec_u32_ne_bytes(v.er));
    assert(v.spec_to_bytes().subrange(28, 32)
        =~= spec_u32_ne_bytes(v.bp));
    assert(v.spec_to_bytes().subrange(32, 36)
        =~= spec_u32_ne_bytes(v.sap));
    assert(v.spec_to_bytes().subrange(36, 40)
        =~= spec_u32_ne_bytes(v.i));
}

} // verus!
