use vstd::prelude::*;
use crate::pod::{spec_zeros, PodValue};
use crate::pod::scalar::{
    lemma_i32_bytes_round_trip, lemma_i32_round_trip, lemma_u64_bytes_round_trip,
    lemma_u64_round_trip, lemma_zero_bytes, push_i32, push_u64, push_u8s, read_i32, read_u64,
    spec_i32_from_ne_bytes, spec_i32_ne_bytes, spec_u64_from_ne_bytes, spec_u64_ne_bytes,
};

verus! {

/// Byte offset of `is_enabled` within `PreTrainD`.
pub const PRE_TRAIN_D_OFFSET_IS_ENABLED: usize = 0;

/// Byte offset of `_pad0` within `PreTrainD`.
pub const PRE_TRAIN_D_OFFSET_PAD0: usize = 1;

/// Byte offset of `location` within `PreTrainD`.
pub const PRE_TRAIN_D_OFFSET_LOCATION: usize = 8;

/// Byte offset of `distance` within `PreTrainD`.
pub const PRE_TRAIN_D_OFFSET_DISTANCE: usize = 16;

/// Byte offset of `speed` within `PreTrainD`.
pub const PRE_TRAIN_D_OFFSET_SPEED: usize = 24;

/// Size of `PreTrainD` in bytes.
pub const PRE_TRAIN_D_SIZE: usize = 32;

/// Preceding train data (part of `OpenD`).
///
/// Binary compatible with C# `OpenD.PreTrainD` (`LayoutKind.Sequential`).
/// Size: 32 bytes. Floating-point fields hold the bit pattern of the value.
/// The enabled flag is stored as a byte (0 or 1).
#[derive(Debug, Clone, Copy, PartialEq)]
pub struct PreTrainD {
    /// Enabled flag as a byte (0 or 1); see `is_enabled()`
    pub is_enabled: u8,
    /// Padding
    pub _pad0: [u8; 7],
    /// Preceding train tail position [m] (IEEE-754 binary64 bit pattern, as given by `f64::to_bits`)
    pub location: u64,
    /// Distance to preceding train [m] (IEEE-754 binary64 bit pattern, as given by `f64::to_bits`)
    pub distance: u64,
    /// Preceding train speed [km/h] (IEEE-754 binary64 bit pattern, as given by `f64::to_bits`)
    pub speed: u64,
}

impl PreTrainD {
    /// The value whose fields are all zero.
    pub open spec fn spec_zero() -> PreTrainD {
        PreTrainD {
            is_enabled: 0,
            _pad0: [0, 0, 0, 0, 0, 0, 0],
            location: 0,
            distance: 0,
            speed: 0,
        }
    }

    /// The bytes of the all-zero value are all zero.
    pub proof fn lemma_zero_image()
        ensures
            PreTrainD::spec_zero().spec_to_bytes() == spec_zeros(PRE_TRAIN_D_SIZE as nat),
    {
        lemma_zero_bytes();
        assert(PreTrainD::spec_zero()._pad0@ =~= spec_zeros(7));
        assert(PreTrainD::spec_zero().spec_to_bytes() =~= spec_zeros(PRE_TRAIN_D_SIZE as nat));
    }

    /// Whether the preceding train data is valid.
    pub fn is_enabled(&self) -> (r: bool)
        ensures
            r == (self.is_enabled != 0),
    {
        self.is_enabled != 0
    }

    /// Sets whether the preceding train data is valid.
    pub fn set_is_enabled(&mut self, val: bool)
        ensures
            *final(self) == (PreTrainD { is_enabled: if val { 1u8 } else { 0u8 }, ..*old(self) }),
    {
        self.is_enabled = if val { 1 } else { 0 };
    }

}

impl Default for PreTrainD {
    fn default() -> (r: Self)
        ensures
            r == PreTrainD::spec_zero(),
    {
        PreTrainD {
            is_enabled: 0,
            _pad0: [0, 0, 0, 0, 0, 0, 0],
            location: 0,
            distance: 0,
            speed: 0,
        }
    }
}

impl PodValue for PreTrainD {
    open spec fn spec_size() -> nat {
        PRE_TRAIN_D_SIZE as nat
    }

    open spec fn spec_to_bytes(self) -> Seq<u8> {
        seq![self.is_enabled]
            + self._pad0@
            + spec_u64_ne_bytes(self.location)
            + spec_u64_ne_bytes(self.distance)
            + spec_u64_ne_bytes(self.speed)
    }

    open spec fn spec_from_bytes(bytes: Seq<u8>) -> PreTrainD {
        PreTrainD {
            is_enabled: bytes[PRE_TRAIN_D_OFFSET_IS_ENABLED as int],
            _pad0: [
                bytes[PRE_TRAIN_D_OFFSET_PAD0 + 0],
                bytes[PRE_TRAIN_D_OFFSET_PAD0 + 1],
                bytes[PRE_TRAIN_D_OFFSET_PAD0 + 2],
                bytes[PRE_TRAIN_D_OFFSET_PAD0 + 3],
                bytes[PRE_TRAIN_D_OFFSET_PAD0 + 4],
                bytes[PRE_TRAIN_D_OFFSET_PAD0 + 5],
                bytes[PRE_TRAIN_D_OFFSET_PAD0 + 6],
            ],
            location: spec_u64_from_ne_bytes(bytes.subrange(
                PRE_TRAIN_D_OFFSET_LOCATION as int,
                PRE_TRAIN_D_OFFSET_LOCATION + 8,
            )),
            distance: spec_u64_from_ne_bytes(bytes.subrange(
                PRE_TRAIN_D_OFFSET_DISTANCE as int,
                PRE_TRAIN_D_OFFSET_DISTANCE + 8,
            )),
            speed: spec_u64_from_ne_bytes(bytes.subrange(
                PRE_TRAIN_D_OFFSET_SPEED as int,
                PRE_TRAIN_D_OFFSET_SPEED + 8,
            )),
        }
    }

    proof fn lemma_pod_laws() {
        assert forall|v: PreTrainD| #[trigger] v.spec_to_bytes().len() == PRE_TRAIN_D_SIZE by {
            PreTrainD::lemma_image_len(v);
        }
        assert forall|v: PreTrainD| PreTrainD::spec_from_bytes(#[trigger] v.spec_to_bytes())
            == v by {
            PreTrainD::lemma_image_round_trip(v);
        }
        assert forall|b: Seq<u8>| b.len() == PRE_TRAIN_D_SIZE
            implies #[trigger] PreTrainD::spec_from_bytes(b).spec_to_bytes() == b by {
            PreTrainD::lemma_bytes_round_trip(b);
        }
    }

    fn size_of() -> (r: usize) {
        PRE_TRAIN_D_SIZE
    }

    fn zeroed() -> (r: PreTrainD) {
        proof {
            PreTrainD::lemma_zero_image();
        }
        PreTrainD::default()
    }

    fn to_bytes(&self) -> (r: Vec<u8>) {
        proof {
            PreTrainD::lemma_pod_laws();
            lemma_u64_round_trip(self.location);
            lemma_u64_round_trip(self.distance);
            lemma_u64_round_trip(self.speed);
        }
        let mut v: Vec<u8> = Vec::new();
        v.push(self.is_enabled);
        push_u8s(&mut v, self._pad0.as_slice());
        push_u64(&mut v, self.location);
        push_u64(&mut v, self.distance);
        push_u64(&mut v, self.speed);
        assert(v@ =~= self.spec_to_bytes());
        v
    }

    fn from_bytes(bytes: &[u8]) -> (r: PreTrainD) {
        let is_enabled = bytes[PRE_TRAIN_D_OFFSET_IS_ENABLED];
        let pad0 = [
            bytes[PRE_TRAIN_D_OFFSET_PAD0 + 0],
            bytes[PRE_TRAIN_D_OFFSET_PAD0 + 1],
            bytes[PRE_TRAIN_D_OFFSET_PAD0 + 2],
            bytes[PRE_TRAIN_D_OFFSET_PAD0 + 3],
            bytes[PRE_TRAIN_D_OFFSET_PAD0 + 4],
            bytes[PRE_TRAIN_D_OFFSET_PAD0 + 5],
            bytes[PRE_TRAIN_D_OFFSET_PAD0 + 6],
        ];
        let location = read_u64(bytes, PRE_TRAIN_D_OFFSET_LOCATION);
        let distance = read_u64(bytes, PRE_TRAIN_D_OFFSET_DISTANCE);
        let speed = read_u64(bytes, PRE_TRAIN_D_OFFSET_SPEED);
        PreTrainD {
            is_enabled: is_enabled,
            _pad0: pad0,
            location: location,
            distance: distance,
            speed: speed,
        }
    }
}

impl PreTrainD {
    proof fn lemma_image_len(v: PreTrainD)
        ensures
            v.spec_to_bytes().len() == PRE_TRAIN_D_SIZE,
    {
        lemma_u64_round_trip(v.location);
        lemma_u64_round_trip(v.distance);
        lemma_u64_round_trip(v.speed);
    }

    proof fn lemma_image_round_trip(v: PreTrainD)
        ensures
            PreTrainD::spec_from_bytes(v.spec_to_bytes()) == v,
    {
        lemma_u64_round_trip(v.location);
        lemma_u64_round_trip(v.distance);
        lemma_u64_round_trip(v.speed);
        let b = v.spec_to_bytes();
        assert(b[PRE_TRAIN_D_OFFSET_IS_ENABLED as int] == v.is_enabled);
        assert(b.subrange(
            PRE_TRAIN_D_OFFSET_PAD0 as int,
            PRE_TRAIN_D_OFFSET_PAD0 + 7,
        ) =~= v._pad0@);
        assert([
            b[PRE_TRAIN_D_OFFSET_PAD0 + 0],
            b[PRE_TRAIN_D_OFFSET_PAD0 + 1],
            b[PRE_TRAIN_D_OFFSET_PAD0 + 2],
            b[PRE_TRAIN_D_OFFSET_PAD0 + 3],
            b[PRE_TRAIN_D_OFFSET_PAD0 + 4],
            b[PRE_TRAIN_D_OFFSET_PAD0 + 5],
            b[PRE_TRAIN_D_OFFSET_PAD0 + 6],
        ] =~= v._pad0);
        assert(b.subrange(
            PRE_TRAIN_D_OFFSET_LOCATION as int,
            PRE_TRAIN_D_OFFSET_LOCATION + 8,
        ) =~= spec_u64_ne_bytes(v.location));
        assert(b.subrange(
            PRE_TRAIN_D_OFFSET_DISTANCE as int,
            PRE_TRAIN_D_OFFSET_DISTANCE + 8,
        ) =~= spec_u64_ne_bytes(v.distance));
        assert(b.subrange(
            PRE_TRAIN_D_OFFSET_SPEED as int,
            PRE_TRAIN_D_OFFSET_SPEED + 8,
        ) =~= spec_u64_ne_bytes(v.speed));
    }

    proof fn lemma_bytes_round_trip(b: Seq<u8>)
        requires
            b.len() == PRE_TRAIN_D_SIZE,
        ensures
            PreTrainD::spec_from_bytes(b).spec_to_bytes() == b,
    {
        lemma_u64_bytes_round_trip(b.subrange(
            PRE_TRAIN_D_OFFSET_LOCATION as int,
            PRE_TRAIN_D_OFFSET_LOCATION + 8,
        ));
        lemma_u64_bytes_round_trip(b.subrange(
            PRE_TRAIN_D_OFFSET_DISTANCE as int,
            PRE_TRAIN_D_OFFSET_DISTANCE + 8,
        ));
        lemma_u64_bytes_round_trip(b.subrange(
            PRE_TRAIN_D_OFFSET_SPEED as int,
            PRE_TRAIN_D_OFFSET_SPEED + 8,
        ));
        let v = PreTrainD::spec_from_bytes(b);
        lemma_u64_round_trip(v.location);
        lemma_u64_round_trip(v.distance);
        lemma_u64_round_trip(v.speed);
        assert(seq![v.is_enabled] =~= b.subrange(
            PRE_TRAIN_D_OFFSET_IS_ENABLED as int,
            PRE_TRAIN_D_OFFSET_IS_ENABLED + 1,
        ));
        assert(v._pad0@ =~= b.subrange(
            PRE_TRAIN_D_OFFSET_PAD0 as int,
            PRE_TRAIN_D_OFFSET_PAD0 + 7,
        ));
        assert(v.spec_to_bytes() =~= b);
    }
}


/// Byte offset of `is_enabled` within `OpenD`.
pub const OPEN_D_OFFSET_IS_ENABLED: usize = 0;

/// Byte offset of `_pad0` within `OpenD`.
pub const OPEN_D_OFFSET_PAD0: usize = 1;

/// Byte offset of `ver` within `OpenD`.
pub const OPEN_D_OFFSET_VER: usize = 4;

/// Byte offset of `radius` within `OpenD`.
pub const OPEN_D_OFFSET_RADIUS: usize = 8;

/// Byte offset of `cant` within `OpenD`.
pub const OPEN_D_OFFSET_CANT: usize = 16;

/// Byte offset of `pitch` within `OpenD`.
pub const OPEN_D_OFFSET_PITCH: usize = 24;

/// Byte offset of `elap_time` within `OpenD`.
pub const OPEN_D_OFFSET_ELAP_TIME: usize = 32;

/// Byte offset of `pre_train` within `OpenD`.
pub const OPEN_D_OFFSET_PRE_TRAIN: usize = 40;

/// Byte offset of `self_b_count` within `OpenD`.
pub const OPEN_D_OFFSET_SELF_B_COUNT: usize = 72;

/// Byte offset of `self_b_position` within `OpenD`.
pub const OPEN_D_OFFSET_SELF_B_POSITION: usize = 76;

/// Size of `OpenD` in bytes.
pub const OPEN_D_SIZE: usize = 80;

/// OpenBVE extended data.
///
/// Binary compatible with C# `OpenD` struct (`LayoutKind.Sequential`).
/// Size: 80 bytes. Floating-point fields hold the bit pattern of the value.
/// The enabled flag is stored as a byte (0 or 1).
#[derive(Debug, Clone, Copy, PartialEq)]
pub struct OpenD {
    /// Enabled flag as a byte (0 or 1); see `is_enabled()`
    pub is_enabled: u8,
    /// Padding
    pub _pad0: [u8; 3],
    /// Structure version
    pub ver: i32,
    /// Curve radius [m] (IEEE-754 binary64 bit pattern, as given by `f64::to_bits`)
    pub radius: u64,
    /// Cant magnitude [mm] (IEEE-754 binary64 bit pattern, as given by `f64::to_bits`)
    pub cant: u64,
    /// Gradient [permil] (IEEE-754 binary64 bit pattern, as given by `f64::to_bits`)
    pub pitch: u64,
    /// Frame elapsed time [ms] (IEEE-754 binary64 bit pattern, as given by `f64::to_bits`)
    pub elap_time: u64,
    /// Preceding train data
    pub pre_train: PreTrainD,
    /// Self-brake notch count
    pub self_b_count: i32,
    /// Self-brake handle position
    pub self_b_position: i32,
}

impl OpenD {
    /// The value whose fields are all zero.
    pub open spec fn spec_zero() -> OpenD {
        OpenD {
            is_enabled: 0,
            _pad0: [0, 0, 0],
            ver: 0,
            radius: 0,
            cant: 0,
            pitch: 0,
            elap_time: 0,
            pre_train: PreTrainD::spec_zero(),
            self_b_count: 0,
            self_b_position: 0,
        }
    }

    /// The bytes of the all-zero value are all zero.
    pub proof fn lemma_zero_image()
        ensures
            OpenD::spec_zero().spec_to_bytes() == spec_zeros(OPEN_D_SIZE as nat),
    {
        lemma_zero_bytes();
        PreTrainD::lemma_zero_image();
        assert(OpenD::spec_zero()._pad0@ =~= spec_zeros(3));
        assert(OpenD::spec_zero().spec_to_bytes() =~= spec_zeros(OPEN_D_SIZE as nat));
    }

    /// Whether the extended data is valid.
    pub fn is_enabled(&self) -> (r: bool)
        ensures
            r == (self.is_enabled != 0),
    {
        self.is_enabled != 0
    }

    /// Sets whether the extended data is valid.
    pub fn set_is_enabled(&mut self, val: bool)
        ensures
            *final(self) == (OpenD { is_enabled: if val { 1u8 } else { 0u8 }, ..*old(self) }),
    {
        self.is_enabled = if val { 1 } else { 0 };
    }

}

impl Default for OpenD {
    fn default() -> (r: Self)
        ensures
            r == OpenD::spec_zero(),
    {
        OpenD {
            is_enabled: 0,
            _pad0: [0, 0, 0],
            ver: 0,
            radius: 0,
            cant: 0,
            pitch: 0,
            elap_time: 0,
            pre_train: PreTrainD::default(),
            self_b_count: 0,
            self_b_position: 0,
        }
    }
}

impl PodValue for OpenD {
    open spec fn spec_size() -> nat {
        OPEN_D_SIZE as nat
    }

    open spec fn spec_to_bytes(self) -> Seq<u8> {
        seq![self.is_enabled]
            + self._pad0@
            + spec_i32_ne_bytes(self.ver)
            + spec_u64_ne_bytes(self.radius)
            + spec_u64_ne_bytes(self.cant)
            + spec_u64_ne_bytes(self.pitch)
            + spec_u64_ne_bytes(self.elap_time)
            + self.pre_train.spec_to_bytes()
            + spec_i32_ne_bytes(self.self_b_count)
            + spec_i32_ne_bytes(self.self_b_position)
    }

    open spec fn spec_from_bytes(bytes: Seq<u8>) -> OpenD {
        OpenD {
            is_enabled: bytes[OPEN_D_OFFSET_IS_ENABLED as int],
            _pad0: [
                bytes[OPEN_D_OFFSET_PAD0 + 0],
                bytes[OPEN_D_OFFSET_PAD0 + 1],
                bytes[OPEN_D_OFFSET_PAD0 + 2],
            ],
            ver: spec_i32_from_ne_bytes(bytes.subrange(
                OPEN_D_OFFSET_VER as int,
                OPEN_D_OFFSET_VER + 4,
            )),
            radius: spec_u64_from_ne_bytes(bytes.subrange(
                OPEN_D_OFFSET_RADIUS as int,
                OPEN_D_OFFSET_RADIUS + 8,
            )),
            cant: spec_u64_from_ne_bytes(bytes.subrange(
                OPEN_D_OFFSET_CANT as int,
                OPEN_D_OFFSET_CANT + 8,
            )),
            pitch: spec_u64_from_ne_bytes(bytes.subrange(
                OPEN_D_OFFSET_PITCH as int,
                OPEN_D_OFFSET_PITCH + 8,
            )),
            elap_time: spec_u64_from_ne_bytes(bytes.subrange(
                OPEN_D_OFFSET_ELAP_TIME as int,
                OPEN_D_OFFSET_ELAP_TIME + 8,
            )),
            pre_train: PreTrainD::spec_from_bytes(bytes.subrange(
                OPEN_D_OFFSET_PRE_TRAIN as int,
                OPEN_D_OFFSET_PRE_TRAIN + 32,
            )),
            self_b_count: spec_i32_from_ne_bytes(bytes.subrange(
                OPEN_D_OFFSET_SELF_B_COUNT as int,
                OPEN_D_OFFSET_SELF_B_COUNT + 4,
            )),
            self_b_position: spec_i32_from_ne_bytes(bytes.subrange(
                OPEN_D_OFFSET_SELF_B_POSITION as int,
                OPEN_D_OFFSET_SELF_B_POSITION + 4,
            )),
        }
    }

    proof fn lemma_pod_laws() {
        assert forall|v: OpenD| #[trigger] v.spec_to_bytes().len() == OPEN_D_SIZE by {
            OpenD::lemma_image_len(v);
        }
        assert forall|v: OpenD| OpenD::spec_from_bytes(#[trigger] v.spec_to_bytes()) == v by {
            OpenD::lemma_image_round_trip(v);
        }
        assert forall|b: Seq<u8>| b.len() == OPEN_D_SIZE
            implies #[trigger] OpenD::spec_from_bytes(b).spec_to_bytes() == b by {
            OpenD::lemma_bytes_round_trip(b);
        }
    }

    fn size_of() -> (r: usize) {
        OPEN_D_SIZE
    }

    fn zeroed() -> (r: OpenD) {
        proof {
            OpenD::lemma_zero_image();
        }
        OpenD::default()
    }

    fn to_bytes(&self) -> (r: Vec<u8>) {
        proof {
            OpenD::lemma_pod_laws();
            lemma_i32_round_trip(self.ver);
            lemma_u64_round_trip(self.radius);
            lemma_u64_round_trip(self.cant);
            lemma_u64_round_trip(self.pitch);
            lemma_u64_round_trip(self.elap_time);
            lemma_i32_round_trip(self.self_b_count);
            lemma_i32_round_trip(self.self_b_position);
        }
        let mut v: Vec<u8> = Vec::new();
        v.push(self.is_enabled);
        push_u8s(&mut v, self._pad0.as_slice());
        push_i32(&mut v, self.ver);
        push_u64(&mut v, self.radius);
        push_u64(&mut v, self.cant);
        push_u64(&mut v, self.pitch);
        push_u64(&mut v, self.elap_time);
        let mut pre_train_bytes = self.pre_train.to_bytes();
        v.append(&mut pre_train_bytes);
        push_i32(&mut v, self.self_b_count);
        push_i32(&mut v, self.self_b_position);
        assert(v@ =~= self.spec_to_bytes());
        v
    }

    fn from_bytes(bytes: &[u8]) -> (r: OpenD) {
        let is_enabled = bytes[OPEN_D_OFFSET_IS_ENABLED];
        let pad0 = [
            bytes[OPEN_D_OFFSET_PAD0 + 0],
            bytes[OPEN_D_OFFSET_PAD0 + 1],
            bytes[OPEN_D_OFFSET_PAD0 + 2],
        ];
        let ver = read_i32(bytes, OPEN_D_OFFSET_VER);
        let radius = read_u64(bytes, OPEN_D_OFFSET_RADIUS);
        let cant = read_u64(bytes, OPEN_D_OFFSET_CANT);
        let pitch = read_u64(bytes, OPEN_D_OFFSET_PITCH);
        let elap_time = read_u64(bytes, OPEN_D_OFFSET_ELAP_TIME);
        let pre_train = PreTrainD::from_bytes(&bytes[OPEN_D_OFFSET_PRE_TRAIN..OPEN_D_OFFSET_PRE_TRAIN + 32]);
        let self_b_count = read_i32(bytes, OPEN_D_OFFSET_SELF_B_COUNT);
        let self_b_position = read_i32(bytes, OPEN_D_OFFSET_SELF_B_POSITION);
        OpenD {
            is_enabled: is_enabled,
            _pad0: pad0,
            ver: ver,
            radius: radius,
            cant: cant,
            pitch: pitch,
            elap_time: elap_time,
            pre_train: pre_train,
            self_b_count: self_b_count,
            self_b_position: self_b_position,
        }
    }
}

impl OpenD {
    proof fn lemma_image_len(v: OpenD)
        ensures
            v.spec_to_bytes().len() == OPEN_D_SIZE,
    {
        PreTrainD::lemma_pod_laws();
        lemma_i32_round_trip(v.ver);
        lemma_u64_round_trip(v.radius);
        lemma_u64_round_trip(v.cant);
        lemma_u64_round_trip(v.pitch);
        lemma_u64_round_trip(v.elap_time);
        lemma_i32_round_trip(v.self_b_count);
        lemma_i32_round_trip(v.self_b_position);
    }

    proof fn lemma_image_round_trip(v: OpenD)
        ensures
            OpenD::spec_from_bytes(v.spec_to_bytes()) == v,
    {
        PreTrainD::lemma_pod_laws();
        lemma_i32_round_trip(v.ver);
        lemma_u64_round_trip(v.radius);
        lemma_u64_round_trip(v.cant);
        lemma_u64_round_trip(v.pitch);
        lemma_u64_round_trip(v.elap_time);
        lemma_i32_round_trip(v.self_b_count);
        lemma_i32_round_trip(v.self_b_position);
        let b = v.spec_to_bytes();
        assert(b[OPEN_D_OFFSET_IS_ENABLED as int] == v.is_enabled);
        assert(b.subrange(OPEN_D_OFFSET_PAD0 as int, OPEN_D_OFFSET_PAD0 + 3) =~= v._pad0@);
        assert([
            b[OPEN_D_OFFSET_PAD0 + 0],
            b[OPEN_D_OFFSET_PAD0 + 1],
            b[OPEN_D_OFFSET_PAD0 + 2],
        ] =~= v._pad0);
        assert(b.subrange(
            OPEN_D_OFFSET_VER as int,
            OPEN_D_OFFSET_VER + 4,
        ) =~= spec_i32_ne_bytes(v.ver));
        assert(b.subrange(
            OPEN_D_OFFSET_RADIUS as int,
            OPEN_D_OFFSET_RADIUS + 8,
        ) =~= spec_u64_ne_bytes(v.radius));
        assert(b.subrange(
            OPEN_D_OFFSET_CANT as int,
            OPEN_D_OFFSET_CANT + 8,
        ) =~= spec_u64_ne_bytes(v.cant));
        assert(b.subrange(
            OPEN_D_OFFSET_PITCH as int,
            OPEN_D_OFFSET_PITCH + 8,
        ) =~= spec_u64_ne_bytes(v.pitch));
        assert(b.subrange(
            OPEN_D_OFFSET_ELAP_TIME as int,
            OPEN_D_OFFSET_ELAP_TIME + 8,
        ) =~= spec_u64_ne_bytes(v.elap_time));
        assert(b.subrange(
            OPEN_D_OFFSET_PRE_TRAIN as int,
            OPEN_D_OFFSET_PRE_TRAIN + 32,
        ) =~= v.pre_train.spec_to_bytes());
        assert(b.subrange(
            OPEN_D_OFFSET_SELF_B_COUNT as int,
            OPEN_D_OFFSET_SELF_B_COUNT + 4,
        ) =~= spec_i32_ne_bytes(v.self_b_count));
        assert(b.subrange(
            OPEN_D_OFFSET_SELF_B_POSITION as int,
            OPEN_D_OFFSET_SELF_B_POSITION + 4,
        ) =~= spec_i32_ne_bytes(v.self_b_position));
    }

    proof fn lemma_bytes_round_trip(b: Seq<u8>)
        requires
            b.len() == OPEN_D_SIZE,
        ensures
            OpenD::spec_from_bytes(b).spec_to_bytes() == b,
    {
        PreTrainD::lemma_pod_laws();
        lemma_i32_bytes_round_trip(b.subrange(OPEN_D_OFFSET_VER as int, OPEN_D_OFFSET_VER + 4));
        lemma_u64_bytes_round_trip(b.subrange(
            OPEN_D_OFFSET_RADIUS as int,
            OPEN_D_OFFSET_RADIUS + 8,
        ));
        lemma_u64_bytes_round_trip(b.subrange(OPEN_D_OFFSET_CANT as int, OPEN_D_OFFSET_CANT + 8));
        lemma_u64_bytes_round_trip(b.subrange(OPEN_D_OFFSET_PITCH as int, OPEN_D_OFFSET_PITCH + 8));
        lemma_u64_bytes_round_trip(b.subrange(
            OPEN_D_OFFSET_ELAP_TIME as int,
            OPEN_D_OFFSET_ELAP_TIME + 8,
        ));
        lemma_i32_bytes_round_trip(b.subrange(
            OPEN_D_OFFSET_SELF_B_COUNT as int,
            OPEN_D_OFFSET_SELF_B_COUNT + 4,
        ));
        lemma_i32_bytes_round_trip(b.subrange(
            OPEN_D_OFFSET_SELF_B_POSITION as int,
            OPEN_D_OFFSET_SELF_B_POSITION + 4,
        ));
        let v = OpenD::spec_from_bytes(b);
        lemma_i32_round_trip(v.ver);
        lemma_u64_round_trip(v.radius);
        lemma_u64_round_trip(v.cant);
        lemma_u64_round_trip(v.pitch);
        lemma_u64_round_trip(v.elap_time);
        lemma_i32_round_trip(v.self_b_count);
        lemma_i32_round_trip(v.self_b_position);
        assert(seq![v.is_enabled] =~= b.subrange(
            OPEN_D_OFFSET_IS_ENABLED as int,
            OPEN_D_OFFSET_IS_ENABLED + 1,
        ));
        assert(v._pad0@ =~= b.subrange(OPEN_D_OFFSET_PAD0 as int, OPEN_D_OFFSET_PAD0 + 3));
        assert(v.spec_to_bytes() =~= b);
    }
}

/// Where each field of a `PreTrainD` lies in its 32 bytes, in the order the
/// fields are declared (the C layout that other readers of the region use):
/// the bytes of a value hold each field at its offset, and a value read
/// from bytes takes each field from its offset.
pub proof fn lemma_pre_train_d_field_layout(v: PreTrainD, bytes: Seq<u8>)
    ensures
        v.spec_to_bytes().len() == 32,
        v.spec_to_bytes()[0] == v.is_enabled,
        v.spec_to_bytes().subrange(1, 8) == v._pad0@,
        v.spec_to_bytes().subrange(8, 16) == spec_u64_ne_bytes(v.location),
        v.spec_to_bytes().subrange(16, 24) == spec_u64_ne_bytes(v.distance),
        v.spec_to_bytes().subrange(24, 32) == spec_u64_ne_bytes(v.speed),
        bytes.len() == 32 ==> PreTrainD::spec_from_bytes(bytes).is_enabled == bytes[0],
        bytes.len() == 32 ==> PreTrainD::spec_from_bytes(bytes)._pad0@ == bytes.subrange(1, 8),
        bytes.len() == 32 ==> PreTrainD::spec_from_bytes(bytes).location
            == spec_u64_from_ne_bytes(bytes.subrange(8, 16)),
        bytes.len() == 32 ==> PreTrainD::spec_from_bytes(bytes).distance
            == spec_u64_from_ne_bytes(bytes.subrange(16, 24)),
        bytes.len() == 32 ==> PreTrainD::spec_from_bytes(bytes).speed
            == spec_u64_from_ne_bytes(bytes.subrange(24, 32)),
{
    PreTrainD::lemma_pod_laws();
    lemma_u64_round_trip(v.location);
    lemma_u64_round_trip(v.distance);
    lemma_u64_round_trip(v.speed);
    assert(v.spec_to_bytes().subrange(1, 8) =~= v._pad0@);
    assert(v.spec_to_bytes().subrange(8, 16)
        =~= spec_u64_ne_bytes(v.location));
    assert(v.spec_to_bytes().subrange(16, 24)
        =~= spec_u64_ne_bytes(v.distance));
    assert(v.spec_to_bytes().subrange(24, 32)
        =~= spec_u64_ne_bytes(v.speed));
    assert(bytes.len() == 32 ==> PreTrainD::spec_from_bytes(bytes)._pad0@
        =~= bytes.subrange(1, 8));
}

/// Where each field of a `OpenD` lies in its 80 bytes, in the order the
/// fields are declared (the C layout that other readers of the region use):
/// the bytes of a value hold each field at its offset, and a value read
/// from bytes takes each field from its offset.
pub proof fn lemma_open_d_field_layout(v: OpenD, bytes: Seq<u8>)
    ensures
        v.spec_to_bytes().len() == 80,
        v.spec_to_bytes()[0] == v.is_enabled,
        v.spec_to_bytes().subrange(1, 4) == v._pad0@,
        v.spec_to_bytes().subrange(4, 8) == spec_i32_ne_bytes(v.ver),
        v.spec_to_bytes().subrange(8, 16) == spec_u64_ne_bytes(v.radius),
        v.spec_to_bytes().subrange(16, 24) == spec_u64_ne_bytes(v.cant),
        v.spec_to_bytes().subrange(24, 32) == spec_u64_ne_bytes(v.pitch),
        v.spec_to_bytes().subrange(32, 40) == spec_u64_ne_bytes(v.elap_time),
        v.spec_to_bytes().subrange(40, 72) == v.pre_train.spec_to_bytes(),
        v.spec_to_bytes().subrange(72, 76) == spec_i32_ne_bytes(v.self_b_count),
        v.spec_to_bytes().subrange(76, 80) == spec_i32_ne_bytes(v.self_b_position),
        bytes.len() == 80 ==> OpenD::spec_from_bytes(bytes).is_enabled == bytes[0],
        bytes.len() == 80 ==> OpenD::spec_from_bytes(bytes)._pad0@ == bytes.subrange(1, 4),
        bytes.len() == 80 ==> OpenD::spec_from_bytes(bytes).ver
            == spec_i32_from_ne_bytes(bytes.subrange(4, 8)),
        bytes.len() == 80 ==> OpenD::spec_from_bytes(bytes).radius
            == spec_u64_from_ne_bytes(bytes.subrange(8, 16)),
        bytes.len() == 80 ==> OpenD::spec_from_bytes(bytes).cant
            == spec_u64_from_ne_bytes(bytes.subrange(16, 24)),
        bytes.len() == 80 ==> OpenD::spec_from_bytes(bytes).pitch
            == spec_u64_from_ne_bytes(bytes.subrange(24, 32)),
        bytes.len() == 80 ==> OpenD::spec_from_bytes(bytes).elap_time
            == spec_u64_from_ne_bytes(bytes.subrange(32, 40)),
        bytes.len() == 80 ==> OpenD::spec_from_bytes(bytes).pre_train
            == PreTrainD::spec_from_bytes(bytes.subrange(40, 72)),
        bytes.len() == 80 ==> OpenD::spec_from_bytes(bytes).self_b_count
            == spec_i32_from_ne_bytes(bytes.subrange(72, 76)),
        bytes.len() == 80 ==> OpenD::spec_from_bytes(bytes).self_b_position
            == spec_i32_from_ne_bytes(bytes.subrange(76, 80)),
{
    OpenD::lemma_pod_laws();
    lemma_i32_round_trip(v.ver);
    lemma_u64_round_trip(v.radius);
    lemma_u64_round_trip(v.cant);
    lemma_u64_round_trip(v.pitch);
    lemma_u64_round_trip(v.elap_time);
    PreTrainD::lemma_pod_laws();
    lemma_i32_round_trip(v.self_b_count);
    lemma_i32_round_trip(v.self_b_position);
    assert(v.spec_to_bytes().subrange(1, 4) =~= v._pad0@);
    assert(v.spec_to_bytes().subrange(4, 8)
        =~= spec_i32_ne_bytes(v.ver));
    assert(v.spec_to_bytes().subrange(8, 16)
        =~= spec_u64_ne_bytes(v.radius));
    assert(v.spec_to_bytes().subrange(16, 24)
        =~= spec_u64_ne_bytes(v.cant));
    assert(v.spec_to_bytes().subrange(24, 32)
        =~= spec_u64_ne_bytes(v.pitch));
    assert(v.spec_to_bytes().subrange(32, 40)
        =~= spec_u64_ne_bytes(v.elap_time));
    assert(v.spec_to_bytes().subrange(40, 72)
        =~= v.pre_train.spec_to_bytes());
    assert(v.spec_to_bytes().subrange(72, 76)
        =~= spec_i32_ne_bytes(v.self_b_count));
    assert(v.spec_to_bytes().subrange(76, 80)
        =~= spec_i32_ne_bytes(v.self_b_position));
    assert(bytes.len() == 80 ==> OpenD::spec_from_bytes(bytes)._pad0@
        =~= bytes.subrange(1, 4));
}

} // verus!
