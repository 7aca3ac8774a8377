use vstd::prelude::*;
use crate::pod::{spec_update_bytes, spec_zeros, PodValue};
use crate::pod::scalar::{
    lemma_i32_bytes_round_trip, lemma_i32_round_trip, lemma_zero_bytes, push_i32, push_u8s,
    read_i32, spec_i32_from_ne_bytes, spec_i32_ne_bytes,
};
use super::hand::Hand;
use super::spec::Spec;
use super::state::State;

verus! {

/// Byte offset of `is_enabled` within `BIDSSharedMemoryData`.
pub const BSMD_OFFSET_IS_ENABLED: usize = 0;

/// Byte offset of `_pad0` within `BIDSSharedMemoryData`.
pub const BSMD_OFFSET_PAD0: usize = 1;

/// Byte offset of `version_num` within `BIDSSharedMemoryData`.
pub const BSMD_OFFSET_VERSION_NUM: usize = 4;

/// Byte offset of `spec_data` within `BIDSSharedMemoryData`.
pub const BSMD_OFFSET_SPEC_DATA: usize = 8;

/// Byte offset of `_pad1` within `BIDSSharedMemoryData`.
pub const BSMD_OFFSET_PAD1: usize = 28;

/// Byte offset of `state_data` within `BIDSSharedMemoryData`.
pub const BSMD_OFFSET_STATE_DATA: usize = 32;

/// Byte offset of `handle_data` within `BIDSSharedMemoryData`.
pub const BSMD_OFFSET_HANDLE_DATA: usize = 72;

/// Byte offset of `is_door_closed` within `BIDSSharedMemoryData`.
pub const BSMD_OFFSET_IS_DOOR_CLOSED: usize = 88;

/// Byte offset of `_pad2` within `BIDSSharedMemoryData`.
pub const BSMD_OFFSET_PAD2: usize = 89;

/// Size of `BIDSSharedMemoryData` in bytes.
pub const BSMD_SIZE: usize = 96;

/// Main BIDS shared memory data structure.
///
/// Binary compatible with C# `BIDSSharedMemoryData` (`LayoutKind.Sequential`).
/// Size: 96 bytes. Bool fields are stored as a byte (0 or 1); use the
/// accessor methods `is_enabled()` / `set_is_enabled()` etc.
#[derive(Debug, Clone, Copy, PartialEq)]
pub struct BIDSSharedMemoryData {
    /// Enabled flag as a byte (0 or 1); see `is_enabled()`
    pub is_enabled: u8,
    /// Padding
    pub _pad0: [u8; 3],
    /// Structure version
    pub version_num: i32,
    /// Vehicle specification
    pub spec_data: Spec,
    /// Padding
    pub _pad1: [u8; 4],
    /// Vehicle state
    pub state_data: State,
    /// Handle positions
    pub handle_data: Hand,
    /// Door-closed flag as a byte (0 or 1); see `is_door_closed()`
    pub is_door_closed: u8,
    /// Padding
    pub _pad2: [u8; 7],
}

impl BIDSSharedMemoryData {
    /// The value whose fields are all zero.
    pub open spec fn spec_zero() -> BIDSSharedMemoryData {
        BIDSSharedMemoryData {
            is_enabled: 0,
            _pad0: [0, 0, 0],
            version_num: 0,
            spec_data: Spec::spec_zero(),
            _pad1: [0, 0, 0, 0],
            state_data: State::spec_zero(),
            handle_data: Hand::spec_zero(),
            is_door_closed: 0,
            _pad2: [0, 0, 0, 0, 0, 0, 0],
        }
    }

    /// The bytes of the all-zero value are all zero.
    pub proof fn lemma_zero_image()
        ensures
            BIDSSharedMemoryData::spec_zero().spec_to_bytes() == spec_zeros(BSMD_SIZE as nat),
    {
        lemma_zero_bytes();
        Hand::lemma_zero_image();
        Spec::lemma_zero_image();
        State::lemma_zero_image();
        assert(BIDSSharedMemoryData::spec_zero()._pad0@ =~= spec_zeros(3));
        assert(BIDSSharedMemoryData::spec_zero()._pad1@ =~= spec_zeros(4));
        assert(BIDSSharedMemoryData::spec_zero()._pad2@ =~= spec_zeros(7));
        assert(BIDSSharedMemoryData::spec_zero().spec_to_bytes() =~= spec_zeros(BSMD_SIZE as nat));
    }

    /// Writing the bytes of `x` over field `version_num` gives the bytes of the value
    /// whose `version_num` is `x` and whose other fields are those of `v`.
    pub proof fn lemma_update_version_num(v: BIDSSharedMemoryData, x: i32)
        ensures
            (BIDSSharedMemoryData { version_num: x, ..v }).spec_to_bytes() == spec_update_bytes(
                v.spec_to_bytes(),
                BSMD_OFFSET_VERSION_NUM as int,
                spec_i32_ne_bytes(x),
            ),
    {
        Hand::lemma_pod_laws();
        Spec::lemma_pod_laws();
        State::lemma_pod_laws();
        lemma_i32_round_trip(v.version_num);
        lemma_i32_round_trip(x);
        let w = BIDSSharedMemoryData { version_num: x, ..v };
        assert(w.spec_to_bytes() =~= spec_update_bytes(
            v.spec_to_bytes(),
            BSMD_OFFSET_VERSION_NUM as int,
            spec_i32_ne_bytes(w.version_num),
        ));
    }

    /// Writing the bytes of `x` over field `spec_data` gives the bytes of the value
    /// whose `spec_data` is `x` and whose other fields are those of `v`.
    pub proof fn lemma_update_spec_data(v: BIDSSharedMemoryData, x: Spec)
        ensures
            (BIDSSharedMemoryData { spec_data: x, ..v }).spec_to_bytes() == spec_update_bytes(
                v.spec_to_bytes(),
                BSMD_OFFSET_SPEC_DATA as int,
                x.spec_to_bytes(),
            ),
    {
        Hand::lemma_pod_laws();
        Spec::lemma_pod_laws();
        State::lemma_pod_laws();
        lemma_i32_round_trip(v.version_num);
        let w = BIDSSharedMemoryData { spec_data: x, ..v };
        assert(w.spec_to_bytes() =~= spec_update_bytes(
            v.spec_to_bytes(),
            BSMD_OFFSET_SPEC_DATA as int,
            w.spec_data.spec_to_bytes(),
        ));
    }

    /// Writing the bytes of `x` over field `state_data` gives the bytes of the value
    /// whose `state_data` is `x` and whose other fields are those of `v`.
    pub proof fn lemma_update_state_data(v: BIDSSharedMemoryData, x: State)
        ensures
            (BIDSSharedMemoryData { state_data: x, ..v }).spec_to_bytes() == spec_update_bytes(
                v.spec_to_bytes(),
                BSMD_OFFSET_STATE_DATA as int,
                x.spec_to_bytes(),
            ),
    {
        Hand::lemma_pod_laws();
        Spec::lemma_pod_laws();
        State::lemma_pod_laws();
        lemma_i32_round_trip(v.version_num);
        let w = BIDSSharedMemoryData { state_data: x, ..v };
        assert(w.spec_to_bytes() =~= spec_update_bytes(
            v.spec_to_bytes(),
            BSMD_OFFSET_STATE_DATA as int,
            w.state_data.spec_to_bytes(),
        ));
    }

    /// Writing the bytes of `x` over field `handle_data` gives the bytes of the value
    /// whose `handle_data` is `x` and whose other fields are those of `v`.
    pub proof fn lemma_update_handle_data(v: BIDSSharedMemoryData, x: Hand)
        ensures
            (BIDSSharedMemoryData { handle_data: x, ..v }).spec_to_bytes() == spec_update_bytes(
                v.spec_to_bytes(),
                BSMD_OFFSET_HANDLE_DATA as int,
                x.spec_to_bytes(),
            ),
    {
        Hand::lemma_pod_laws();
        Spec::lemma_pod_laws();
        State::lemma_pod_laws();
        lemma_i32_round_trip(v.version_num);
        let w = BIDSSharedMemoryData { handle_data: x, ..v };
        assert(w.spec_to_bytes() =~= spec_update_bytes(
            v.spec_to_bytes(),
            BSMD_OFFSET_HANDLE_DATA as int,
            w.handle_data.spec_to_bytes(),
        ));
    }

    /// Whether the shared memory data is valid/enabled.
    pub fn is_enabled(&self) -> (r: bool)
        ensures
            r == (self.is_enabled != 0),
    {
        self.is_enabled != 0
    }

    /// Sets whether the shared memory data is valid/enabled.
    pub fn set_is_enabled(&mut self, val: bool)
        ensures
            *final(self) == (BIDSSharedMemoryData {
                is_enabled: if val { 1u8 } else { 0u8 },
                ..*old(self)
            }),
    {
        self.is_enabled = if val { 1 } else { 0 };
    }

    /// Whether all doors are closed.
    pub fn is_door_closed(&self) -> (r: bool)
        ensures
            r == (self.is_door_closed != 0),
    {
        self.is_door_closed != 0
    }

    /// Sets whether all doors are closed.
    pub fn set_is_door_closed(&mut self, val: bool)
        ensures
            *final(self) == (BIDSSharedMemoryData {
                is_door_closed: if val { 1u8 } else { 0u8 },
                ..*old(self)
            }),
    {
        self.is_door_closed = if val { 1 } else { 0 };
    }

}

impl Default for BIDSSharedMemoryData {
    fn default() -> (r: Self)
        ensures
            r == BIDSSharedMemoryData::spec_zero(),
    {
        BIDSSharedMemoryData {
            is_enabled: 0,
            _pad0: [0, 0, 0],
            version_num: 0,
            spec_data: Spec::default(),
            _pad1: [0, 0, 0, 0],
            state_data: State::default(),
            handle_data: Hand::default(),
            is_door_closed: 0,
            _pad2: [0, 0, 0, 0, 0, 0, 0],
        }
    }
}

impl PodValue for BIDSSharedMemoryData {
    open spec fn spec_size() -> nat {
        BSMD_SIZE as nat
    }

    open spec fn spec_to_bytes(self) -> Seq<u8> {
        seq![self.is_enabled]
            + self._pad0@
            + spec_i32_ne_bytes(self.version_num)
            + self.spec_data.spec_to_bytes()
            + self._pad1@
            + self.state_data.spec_to_bytes()
            + self.handle_data.spec_to_bytes()
            + seq![self.is_door_closed]
            + self._pad2@
    }

    open spec fn spec_from_bytes(bytes: Seq<u8>) -> BIDSSharedMemoryData {
        BIDSSharedMemoryData {
            is_enabled: bytes[BSMD_OFFSET_IS_ENABLED as int],
            _pad0: [
                bytes[BSMD_OFFSET_PAD0 + 0],
                bytes[BSMD_OFFSET_PAD0 + 1],
                bytes[BSMD_OFFSET_PAD0 + 2],
            ],
            version_num: spec_i32_from_ne_bytes(bytes.subrange(
                BSMD_OFFSET_VERSION_NUM as int,
                BSMD_OFFSET_VERSION_NUM + 4,
            )),
            spec_data: Spec::spec_from_bytes(bytes.subrange(
                BSMD_OFFSET_SPEC_DATA as int,
                BSMD_OFFSET_SPEC_DATA + 20,
            )),
            _pad1: [
                bytes[BSMD_OFFSET_PAD1 + 0],
                bytes[BSMD_OFFSET_PAD1 + 1],
                bytes[BSMD_OFFSET_PAD1 + 2],
                bytes[BSMD_OFFSET_PAD1 + 3],
            ],
            state_data: State::spec_from_bytes(bytes.subrange(
                BSMD_OFFSET_STATE_DATA as int,
                BSMD_OFFSET_STATE_DATA + 40,
            )),
            handle_data: Hand::spec_from_bytes(bytes.subrange(
                BSMD_OFFSET_HANDLE_DATA as int,
                BSMD_OFFSET_HANDLE_DATA + 16,
            )),
            is_door_closed: bytes[BSMD_OFFSET_IS_DOOR_CLOSED as int],
            _pad2: [
                bytes[BSMD_OFFSET_PAD2 + 0],
                bytes[BSMD_OFFSET_PAD2 + 1],
                bytes[BSMD_OFFSET_PAD2 + 2],
                bytes[BSMD_OFFSET_PAD2 + 3],
                bytes[BSMD_OFFSET_PAD2 + 4],
                bytes[BSMD_OFFSET_PAD2 + 5],
                bytes[BSMD_OFFSET_PAD2 + 6],
            ],
        }
    }

    proof fn lemma_pod_laws() {
        assert forall|v: BIDSSharedMemoryData| #[trigger] v.spec_to_bytes().len() == BSMD_SIZE by {
            BIDSSharedMemoryData::lemma_image_len(v);
        }
        assert forall|v: BIDSSharedMemoryData| BIDSSharedMemoryData::spec_from_bytes(#[trigger] v.spec_to_bytes())
            == v by {
            BIDSSharedMemoryData::lemma_image_round_trip(v);
        }
        assert forall|b: Seq<u8>| b.len() == BSMD_SIZE
            implies #[trigger] BIDSSharedMemoryData::spec_from_bytes(b).spec_to_bytes() == b by {
            BIDSSharedMemoryData::lemma_bytes_round_trip(b);
        }
    }

    fn size_of() -> (r: usize) {
        BSMD_SIZE
    }

    fn zeroed() -> (r: BIDSSharedMemoryData) {
        proof {
            BIDSSharedMemoryData::lemma_zero_image();
        }
        BIDSSharedMemoryData::default()
    }

    fn to_bytes(&self) -> (r: Vec<u8>) {
        proof {
            BIDSSharedMemoryData::lemma_pod_laws();
            lemma_i32_round_trip(self.version_num);
        }
        let mut v: Vec<u8> = Vec::new();
        v.push(self.is_enabled);
        push_u8s(&mut v, self._pad0.as_slice());
        push_i32(&mut v, self.version_num);
        let mut spec_data_bytes = self.spec_data.to_bytes();
        v.append(&mut spec_data_bytes);
        push_u8s(&mut v, self._pad1.as_slice());
        let mut state_data_bytes = self.state_data.to_bytes();
        v.append(&mut state_data_bytes);
        let mut handle_data_bytes = self.handle_data.to_bytes();
        v.append(&mut handle_data_bytes);
        v.push(self.is_door_closed);
        push_u8s(&mut v, self._pad2.as_slice());
        assert(v@ =~= self.spec_to_bytes());
        v
    }

    fn from_bytes(bytes: &[u8]) -> (r: BIDSSharedMemoryData) {
        let is_enabled = bytes[BSMD_OFFSET_IS_ENABLED];
        let pad0 = [
            bytes[BSMD_OFFSET_PAD0 + 0],
            bytes[BSMD_OFFSET_PAD0 + 1],
            bytes[BSMD_OFFSET_PAD0 + 2],
        ];
        let version_num = read_i32(bytes, BSMD_OFFSET_VERSION_NUM);
        let spec_data = Spec::from_bytes(&bytes[BSMD_OFFSET_SPEC_DATA..BSMD_OFFSET_SPEC_DATA + 20]);
        let pad1 = [
            bytes[BSMD_OFFSET_PAD1 + 0],
            bytes[BSMD_OFFSET_PAD1 + 1],
            bytes[BSMD_OFFSET_PAD1 + 2],
            bytes[BSMD_OFFSET_PAD1 + 3],
        ];
        let state_data = State::from_bytes(&bytes[BSMD_OFFSET_STATE_DATA..BSMD_OFFSET_STATE_DATA + 40]);
        let handle_data = Hand::from_bytes(&bytes[BSMD_OFFSET_HANDLE_DATA..BSMD_OFFSET_HANDLE_DATA + 16]);
        let is_door_closed = bytes[BSMD_OFFSET_IS_DOOR_CLOSED];
        let pad2 = [
            bytes[BSMD_OFFSET_PAD2 + 0],
            bytes[BSMD_OFFSET_PAD2 + 1],
            bytes[BSMD_OFFSET_PAD2 + 2],
            bytes[BSMD_OFFSET_PAD2 + 3],
            bytes[BSMD_OFFSET_PAD2 + 4],
            bytes[BSMD_OFFSET_PAD2 + 5],
            bytes[BSMD_OFFSET_PAD2 + 6],
        ];
        BIDSSharedMemoryData {
            is_enabled: is_enabled,
            _pad0: pad0,
            version_num: version_num,
            spec_data: spec_data,
            _pad1: pad1,
            state_data: state_data,
            handle_data: handle_data,
            is_door_closed: is_door_closed,
            _pad2: pad2,
        }
    }
}

impl BIDSSharedMemoryData {
    proof fn lemma_image_len(v: BIDSSharedMemoryData)
        ensures
            v.spec_to_bytes().len() == BSMD_SIZE,
    {
        Hand::lemma_pod_laws();
        Spec::lemma_pod_laws();
        State::lemma_pod_laws();
        lemma_i32_round_trip(v.version_num);
    }

    proof fn lemma_image_round_trip(v: BIDSSharedMemoryData)
        ensures
            BIDSSharedMemoryData::spec_from_bytes(v.spec_to_bytes()) == v,
    {
        Hand::lemma_pod_laws();
        Spec::lemma_pod_laws();
        State::lemma_pod_laws();
        lemma_i32_round_trip(v.version_num);
        let b = v.spec_to_bytes();
        assert(b[BSMD_OFFSET_IS_ENABLED as int] == v.is_enabled);
        assert(b.subrange(BSMD_OFFSET_PAD0 as int, BSMD_OFFSET_PAD0 + 3) =~= v._pad0@);
        assert([
            b[BSMD_OFFSET_PAD0 + 0],
            b[BSMD_OFFSET_PAD0 + 1],
            b[BSMD_OFFSET_PAD0 + 2],
        ] =~= v._pad0);
        assert(b.subrange(
            BSMD_OFFSET_VERSION_NUM as int,
            BSMD_OFFSET_VERSION_NUM + 4,
        ) =~= spec_i32_ne_bytes(v.version_num));
        assert(b.subrange(
            BSMD_OFFSET_SPEC_DATA as int,
            BSMD_OFFSET_SPEC_DATA + 20,
        ) =~= v.spec_data.spec_to_bytes());
        assert(b.subrange(BSMD_OFFSET_PAD1 as int, BSMD_OFFSET_PAD1 + 4) =~= v._pad1@);
        assert([
            b[BSMD_OFFSET_PAD1 + 0],
            b[BSMD_OFFSET_PAD1 + 1],
            b[BSMD_OFFSET_PAD1 + 2],
            b[BSMD_OFFSET_PAD1 + 3],
        ] =~= v._pad1);
        assert(b.subrange(
            BSMD_OFFSET_STATE_DATA as int,
            BSMD_OFFSET_STATE_DATA + 40,
        ) =~= v.state_data.spec_to_bytes());
        assert(b.subrange(
            BSMD_OFFSET_HANDLE_DATA as int,
            BSMD_OFFSET_HANDLE_DATA + 16,
        ) =~= v.handle_data.spec_to_bytes());
        assert(b[BSMD_OFFSET_IS_DOOR_CLOSED as int] == v.is_door_closed);
        assert(b.subrange(BSMD_OFFSET_PAD2 as int, BSMD_OFFSET_PAD2 + 7) =~= v._pad2@);
        assert([
            b[BSMD_OFFSET_PAD2 + 0],
            b[BSMD_OFFSET_PAD2 + 1],
            b[BSMD_OFFSET_PAD2 + 2],
            b[BSMD_OFFSET_PAD2 + 3],
            b[BSMD_OFFSET_PAD2 + 4],
            b[BSMD_OFFSET_PAD2 + 5],
            b[BSMD_OFFSET_PAD2 + 6],
        ] =~= v._pad2);
    }

    proof fn lemma_bytes_round_trip(b: Seq<u8>)
        requires
            b.len() == BSMD_SIZE,
        ensures
            BIDSSharedMemoryData::spec_from_bytes(b).spec_to_bytes() == b,
    {
        Hand::lemma_pod_laws();
        Spec::lemma_pod_laws();
        State::lemma_pod_laws();
        lemma_i32_bytes_round_trip(b.subrange(
            BSMD_OFFSET_VERSION_NUM as int,
            BSMD_OFFSET_VERSION_NUM + 4,
        ));
        let v = BIDSSharedMemoryData::spec_from_bytes(b);
        lemma_i32_round_trip(v.version_num);
        assert(seq![v.is_enabled] =~= b.subrange(
            BSMD_OFFSET_IS_ENABLED as int,
            BSMD_OFFSET_IS_ENABLED + 1,
        ));
        assert(v._pad0@ =~= b.subrange(BSMD_OFFSET_PAD0 as int, BSMD_OFFSET_PAD0 + 3));
        assert(v._pad1@ =~= b.subrange(BSMD_OFFSET_PAD1 as int, BSMD_OFFSET_PAD1 + 4));
        assert(seq![v.is_door_closed] =~= b.subrange(
            BSMD_OFFSET_IS_DOOR_CLOSED as int,
            BSMD_OFFSET_IS_DOOR_CLOSED + 1,
        ));
        assert(v._pad2@ =~= b.subrange(BSMD_OFFSET_PAD2 as int, BSMD_OFFSET_PAD2 + 7));
        assert(v.spec_to_bytes() =~= b);
    }
}

/// Where each field of a `BIDSSharedMemoryData` lies in its 96 bytes, in the order the
/// fields are declared (the C layout that other readers of the region use):
/// the bytes of a value hold each field at its offset, and a value read
/// from bytes takes each field from its offset.
pub proof fn lemma_bsmd_field_layout(v: BIDSSharedMemoryData, bytes: Seq<u8>)
    ensures
        v.spec_to_bytes().len() == 96,
        v.spec_to_bytes()[0] == v.is_enabled,
        v.spec_to_bytes().subrange(1, 4) == v._pad0@,
        v.spec_to_bytes().subrange(4, 8) == spec_i32_ne_bytes(v.version_num),
        v.spec_to_bytes().subrange(8, 28) == v.spec_data.spec_to_bytes(),
        v.spec_to_bytes().subrange(28, 32) == v._pad1@,
        v.spec_to_bytes().subrange(32, 72) == v.state_data.spec_to_bytes(),
        v.spec_to_bytes().subrange(72, 88) == v.handle_data.spec_to_bytes(),
        v.spec_to_bytes()[88] == v.is_door_closed,
        v.spec_to_bytes().subrange(89, 96) == v._pad2@,
        bytes.len() == 96 ==> BIDSSharedMemoryData::spec_from_bytes(bytes).is_enabled == bytes[0],
        bytes.len() == 96 ==> BIDSSharedMemoryData::spec_from_bytes(bytes)._pad0@
            == bytes.subrange(1, 4),
        bytes.len() == 96 ==> BIDSSharedMemoryData::spec_from_bytes(bytes).version_num
            == spec_i32_from_ne_bytes(bytes.subrange(4, 8)),
        bytes.len() == 96 ==> BIDSSharedMemoryData::spec_from_bytes(bytes).spec_data
            == Spec::spec_from_bytes(bytes.subrange(8, 28)),
        bytes.len() == 96 ==> BIDSSharedMemoryData::spec_from_bytes(bytes)._pad1@
            == bytes.subrange(28, 32),
        bytes.len() == 96 ==> BIDSSharedMemoryData::spec_from_bytes(bytes).state_data
            == State::spec_from_bytes(bytes.subrange(32, 72)),
        bytes.len() == 96 ==> BIDSSharedMemoryData::spec_from_bytes(bytes).handle_data
            == Hand::spec_from_bytes(bytes.subrange(72, 88)),
        bytes.len() == 96 ==> BIDSSharedMemoryData::spec_from_bytes(bytes).is_door_closed
            == bytes[88],
        bytes.len() == 96 ==> BIDSSharedMemoryData::spec_from_bytes(bytes)._pad2@
            == bytes.subrange(89, 96),
{
    BIDSSharedMemoryData::lemma_pod_laws();
    lemma_i32_round_trip(v.version_num);
    Spec::lemma_pod_laws();
    State::lemma_pod_laws();
    Hand::lemma_pod_laws();
    assert(v.spec_to_bytes().subrange(1, 4) =~= v._pad0@);
    assert(v.spec_to_bytes().subrange(4, 8)
        =~= spec_i32_ne_bytes(v.version_num));
    assert(v.spec_to_bytes().subrange(8, 28)
        =~= v.spec_data.spec_to_bytes());
    assert(v.spec_to_bytes().subrange(28, 32) =~= v._pad1@);
    assert(v.spec_to_bytes().subrange(32, 72)
        =~= v.state_data.spec_to_bytes());
    assert(v.spec_to_bytes().subrange(72, 88)
        =~= v.handle_data.spec_to_bytes());
    assert(v.spec_to_bytes().subrange(89, 96) =~= v._pad2@);
    assert(bytes.len() == 96 ==> BIDSSharedMemoryData::spec_from_bytes(bytes)._pad0@
        =~= bytes.subrange(1, 4));
    assert(bytes.len() == 96 ==> BIDSSharedMemoryData::spec_from_bytes(bytes)._pad1@
        =~= bytes.subrange(28, 32));
    assert(bytes.len() == 96 ==> BIDSSharedMemoryData::spec_from_bytes(bytes)._pad2@
        =~= bytes.subrange(89, 96));
}

} // verus!
