use bids_smemlib::types::bsmd::{
    BSMD_OFFSET_HANDLE_DATA, BSMD_OFFSET_SPEC_DATA, BSMD_OFFSET_STATE_DATA,
    BSMD_OFFSET_VERSION_NUM, BSMD_SIZE,
};
use bids_smemlib::types::hand::{
    HAND_OFFSET_B, HAND_OFFSET_C, HAND_OFFSET_P, HAND_OFFSET_R, HAND_SIZE,
};
use bids_smemlib::types::hands::{
    HANDS_OFFSET_B, HANDS_OFFSET_B_POS, HANDS_OFFSET_P, HANDS_OFFSET_P_POS, HANDS_OFFSET_R,
    HANDS_OFFSET_S, HANDS_SIZE,
};
use bids_smemlib::types::open_d::{
    OPEN_D_OFFSET_CANT, OPEN_D_OFFSET_ELAP_TIME, OPEN_D_OFFSET_PITCH, OPEN_D_OFFSET_PRE_TRAIN,
    OPEN_D_OFFSET_RADIUS, OPEN_D_OFFSET_SELF_B_COUNT, OPEN_D_OFFSET_SELF_B_POSITION,
    OPEN_D_OFFSET_VER, OPEN_D_SIZE, PRE_TRAIN_D_OFFSET_DISTANCE, PRE_TRAIN_D_OFFSET_LOCATION,
    PRE_TRAIN_D_OFFSET_SPEED, PRE_TRAIN_D_SIZE,
};
use bids_smemlib::types::spec::{
    SPEC_OFFSET_A, SPEC_OFFSET_B, SPEC_OFFSET_C, SPEC_OFFSET_J, SPEC_OFFSET_P, SPEC_SIZE,
};
use bids_smemlib::types::state::{
    STATE_OFFSET_BC, STATE_OFFSET_BP, STATE_OFFSET_ER, STATE_OFFSET_I, STATE_OFFSET_MR,
    STATE_OFFSET_SAP, STATE_OFFSET_T, STATE_OFFSET_V, STATE_OFFSET_Z, STATE_SIZE,
};
use bids_smemlib::types::{
    BIDSSharedMemoryData, Hand, Hands, OpenD, PreTrainD, Spec, State,
};
use bids_smemlib::PodValue;

// ---- Size tests ----

#[test]
fn test_sizes() {
    assert_eq!(SPEC_SIZE, 20);
    assert_eq!(STATE_SIZE, 40);
    assert_eq!(HAND_SIZE, 16);
    assert_eq!(HANDS_SIZE, 32);
    assert_eq!(PRE_TRAIN_D_SIZE, 32);
    assert_eq!(OPEN_D_SIZE, 80);
    assert_eq!(BSMD_SIZE, 96);
    assert_eq!(<Spec as PodValue>::size_of(), 20);
    assert_eq!(<State as PodValue>::size_of(), 40);
    assert_eq!(<Hand as PodValue>::size_of(), 16);
    assert_eq!(<Hands as PodValue>::size_of(), 32);
    assert_eq!(<PreTrainD as PodValue>::size_of(), 32);
    assert_eq!(<OpenD as PodValue>::size_of(), 80);
    assert_eq!(<BIDSSharedMemoryData as PodValue>::size_of(), 96);
    assert_eq!(Spec::default().to_bytes().len(), 20);
    assert_eq!(State::default().to_bytes().len(), 40);
    assert_eq!(Hand::default().to_bytes().len(), 16);
    assert_eq!(Hands::default().to_bytes().len(), 32);
    assert_eq!(PreTrainD::default().to_bytes().len(), 32);
    assert_eq!(OpenD::default().to_bytes().len(), 80);
    assert_eq!(BIDSSharedMemoryData::default().to_bytes().len(), 96);
}

// ---- Field offset tests ----

#[test]
fn test_spec_offsets() {
    assert_eq!(SPEC_OFFSET_B, 0);
    assert_eq!(SPEC_OFFSET_P, 4);
    assert_eq!(SPEC_OFFSET_A, 8);
    assert_eq!(SPEC_OFFSET_J, 12);
    assert_eq!(SPEC_OFFSET_C, 16);
}

#[test]
fn test_state_offsets() {
    assert_eq!(STATE_OFFSET_Z, 0);
    assert_eq!(STATE_OFFSET_V, 8);
    assert_eq!(STATE_OFFSET_T, 12);
    assert_eq!(STATE_OFFSET_BC, 16);
    assert_eq!(STATE_OFFSET_MR, 20);
    assert_eq!(STATE_OFFSET_ER, 24);
    assert_eq!(STATE_OFFSET_BP, 28);
    assert_eq!(STATE_OFFSET_SAP, 32);
    assert_eq!(STATE_OFFSET_I, 36);
}

#[test]
fn test_hand_offsets() {
    assert_eq!(HAND_OFFSET_B, 0);
    assert_eq!(HAND_OFFSET_P, 4);
    assert_eq!(HAND_OFFSET_R, 8);
    assert_eq!(HAND_OFFSET_C, 12);
}

#[test]
fn test_hands_offsets() {
    assert_eq!(HANDS_OFFSET_B, 0);
    assert_eq!(HANDS_OFFSET_P, 4);
    assert_eq!(HANDS_OFFSET_R, 8);
    assert_eq!(HANDS_OFFSET_S, 12);
    assert_eq!(HANDS_OFFSET_B_POS, 16);
    assert_eq!(HANDS_OFFSET_P_POS, 24);
}

#[test]
fn test_pre_train_d_offsets() {
    assert_eq!(PRE_TRAIN_D_OFFSET_LOCATION, 8);
    assert_eq!(PRE_TRAIN_D_OFFSET_DISTANCE, 16);
    assert_eq!(PRE_TRAIN_D_OFFSET_SPEED, 24);
}

#[test]
fn test_open_d_offsets() {
    assert_eq!(OPEN_D_OFFSET_VER, 4);
    assert_eq!(OPEN_D_OFFSET_RADIUS, 8);
    assert_eq!(OPEN_D_OFFSET_CANT, 16);
    assert_eq!(OPEN_D_OFFSET_PITCH, 24);
    assert_eq!(OPEN_D_OFFSET_ELAP_TIME, 32);
    assert_eq!(OPEN_D_OFFSET_PRE_TRAIN, 40);
    assert_eq!(OPEN_D_OFFSET_SELF_B_COUNT, 72);
    assert_eq!(OPEN_D_OFFSET_SELF_B_POSITION, 76);
}

#[test]
fn test_bsmd_offsets() {
    assert_eq!(BSMD_OFFSET_VERSION_NUM, 4);
    assert_eq!(BSMD_OFFSET_SPEC_DATA, 8);
    assert_eq!(BSMD_OFFSET_STATE_DATA, 32);
    assert_eq!(BSMD_OFFSET_HANDLE_DATA, 72);
}

// ---- Round-trip byte casting ----

#[test]
fn test_spec_round_trip() {
    let spec = Spec {
        b: 8,
        p: 5,
        a: 2,
        j: 7,
        c: 10,
    };
    let bytes = spec.to_bytes();
    let restored = Spec::from_bytes(&bytes);
    assert_eq!(spec, restored);
}

#[test]
fn test_state_round_trip() {
    let state = State {
        z: 12345.678f64.to_bits(),
        v: 80.5f32.to_bits(),
        t: 43200000,
        bc: 200.0f32.to_bits(),
        mr: 780.0f32.to_bits(),
        er: 490.0f32.to_bits(),
        bp: 490.0f32.to_bits(),
        sap: 490.0f32.to_bits(),
        i: 150.0f32.to_bits(),
    };
    let bytes = state.to_bytes();
    let restored = State::from_bytes(&bytes);
    assert_eq!(state, restored);
}

#[test]
fn test_bsmd_round_trip() {
    let mut bsmd = BIDSSharedMemoryData::default();
    bsmd.set_is_enabled(true);
    bsmd.version_num = 203;
    bsmd.spec_data = Spec {
        b: 8,
        p: 5,
        a: 2,
        j: 7,
        c: 10,
    };
    bsmd.state_data = State {
        z: 1000.0f64.to_bits(),
        v: 60.0f32.to_bits(),
        t: 36000000,
        bc: 0.0f32.to_bits(),
        mr: 780.0f32.to_bits(),
        er: 490.0f32.to_bits(),
        bp: 490.0f32.to_bits(),
        sap: 490.0f32.to_bits(),
        i: 100.0f32.to_bits(),
    };
    bsmd.handle_data = Hand {
        b: 0,
        p: 3,
        r: 1,
        c: 0,
    };
    bsmd.set_is_door_closed(true);

    let bytes = bsmd.to_bytes();
    let restored = BIDSSharedMemoryData::from_bytes(&bytes);
    assert_eq!(bsmd, restored);
    assert!(restored.is_enabled());
    assert!(restored.is_door_closed());
    assert_eq!(restored.version_num, 203);
}

#[test]
fn test_open_d_round_trip() {
    let mut open_d = OpenD::default();
    open_d.set_is_enabled(true);
    open_d.radius = 500.0f64.to_bits();
    open_d.cant = 105.0f64.to_bits();
    open_d.pitch = (-15.0f64).to_bits();
    open_d.elap_time = 16.67f64.to_bits();
    open_d.pre_train.set_is_enabled(true);
    open_d.pre_train.location = 5000.0f64.to_bits();
    open_d.pre_train.distance = 1200.0f64.to_bits();
    open_d.pre_train.speed = 75.0f64.to_bits();
    open_d.self_b_count = 5;
    open_d.self_b_position = 2;

    let bytes = open_d.to_bytes();
    let restored = OpenD::from_bytes(&bytes);
    assert_eq!(open_d, restored);
    assert!(restored.is_enabled());
    assert!(restored.pre_train.is_enabled());
}

#[test]
fn test_hands_round_trip() {
    let hands = Hands {
        b: 3,
        p: 0,
        r: 1,
        s: 2,
        b_pos: 0.375f64.to_bits(),
        p_pos: 0.0f64.to_bits(),
    };
    let bytes = hands.to_bytes();
    let restored = Hands::from_bytes(&bytes);
    assert_eq!(hands, restored);
}

// ---- Bool byte representation ----

#[test]
fn test_bool_is_single_byte() {
    let mut bsmd = BIDSSharedMemoryData::default();
    bsmd.set_is_enabled(true);
    let bytes = bsmd.to_bytes();
    // is_enabled is at offset 0, should be 0x01
    assert_eq!(bytes[0], 1);
    // padding bytes should be zero
    assert_eq!(bytes[1], 0);
    assert_eq!(bytes[2], 0);
    assert_eq!(bytes[3], 0);

    bsmd.set_is_enabled(false);
    let bytes = bsmd.to_bytes();
    assert_eq!(bytes[0], 0);
}

// ---- Constants ----

#[test]
fn test_constants() {
    assert_eq!(bids_smemlib::types::VERSION, 203);
    assert_eq!(bids_smemlib::types::PAGE_SIZE, 4096);
    assert_eq!(bids_smemlib::types::names::BSMD, "BIDSSharedMemory");
    assert_eq!(bids_smemlib::types::names::OPEN_D, "BIDSSharedMemoryO");
    assert_eq!(bids_smemlib::types::names::PANEL, "BIDSSharedMemoryPn");
    assert_eq!(bids_smemlib::types::names::SOUND, "BIDSSharedMemorySn");
    assert_eq!(bids_smemlib::types::names::CTRL_KEY, "BIDSSMemCtrlK");
    assert_eq!(bids_smemlib::types::names::CTRL_HAND, "BIDSSMemCtrlH");
}

// ---- Further cases ----

#[test]
fn test_field_bytes_are_native() {
    let spec = Spec {
        b: 0x0102_0304,
        p: -1,
        a: 0,
        j: i32::MIN,
        c: i32::MAX,
    };
    let bytes = spec.to_bytes();
    assert_eq!(bytes[SPEC_OFFSET_B..SPEC_OFFSET_B + 4], 0x0102_0304i32.to_ne_bytes());
    assert_eq!(bytes[SPEC_OFFSET_P..SPEC_OFFSET_P + 4], (-1i32).to_ne_bytes());
    assert_eq!(bytes[SPEC_OFFSET_J..SPEC_OFFSET_J + 4], i32::MIN.to_ne_bytes());
    assert_eq!(bytes[SPEC_OFFSET_C..SPEC_OFFSET_C + 4], i32::MAX.to_ne_bytes());

    let mut state = State::default();
    state.z = 12345.678f64.to_bits();
    state.v = 80.5f32.to_bits();
    let bytes = state.to_bytes();
    assert_eq!(bytes[STATE_OFFSET_Z..STATE_OFFSET_Z + 8], 12345.678f64.to_ne_bytes());
    assert_eq!(bytes[STATE_OFFSET_V..STATE_OFFSET_V + 4], 80.5f32.to_ne_bytes());
    let restored = State::from_bytes(&bytes);
    assert_eq!(f64::from_bits(restored.z), 12345.678);
    assert_eq!(f32::from_bits(restored.v), 80.5);
}

#[test]
fn test_bytes_round_trip_any_bytes() {
    // Every byte string of the right length is the image of one value,
    // padding bytes included.
    let bytes: Vec<u8> = (0..96u32).map(|i| (i * 7 + 3) as u8).collect();
    let bsmd = BIDSSharedMemoryData::from_bytes(&bytes);
    assert_eq!(bsmd.to_bytes(), bytes);
    assert_eq!(bsmd.spec_data, Spec::from_bytes(&bytes[8..28]));
    assert_eq!(bsmd.handle_data, Hand::from_bytes(&bytes[72..88]));
}

#[test]
fn test_zeroed_and_default() {
    assert_eq!(<BIDSSharedMemoryData as PodValue>::zeroed(), BIDSSharedMemoryData::default());
    assert!(BIDSSharedMemoryData::default().to_bytes().iter().all(|b| *b == 0));
    assert!(OpenD::default().to_bytes().iter().all(|b| *b == 0));
    assert_eq!(<i32 as PodValue>::zeroed(), 0);
    assert_eq!(<u8 as PodValue>::zeroed(), 0);
}

#[test]
fn test_flag_setters() {
    let mut p = PreTrainD::default();
    p.set_is_enabled(true);
    assert!(p.is_enabled());
    assert_eq!(p.to_bytes()[0], 1);
    p.set_is_enabled(false);
    assert!(!p.is_enabled());
    let mut b = BIDSSharedMemoryData::default();
    b.set_is_door_closed(true);
    assert_eq!(b.to_bytes()[88], 1);
    b.is_door_closed = 5;
    assert!(b.is_door_closed());
}

#[test]
fn test_state_image_is_the_c_layout() {
    // `State` in C layout: one 8-byte field, then eight 4-byte fields, no padding.
    let state = State {
        z: 1.5f64.to_bits(),
        v: 2.5f32.to_bits(),
        t: -3,
        bc: 4.0f32.to_bits(),
        mr: 5.0f32.to_bits(),
        er: 6.0f32.to_bits(),
        bp: 7.0f32.to_bits(),
        sap: 8.0f32.to_bits(),
        i: 9.0f32.to_bits(),
    };
    let mut expected: Vec<u8> = Vec::new();
    expected.extend_from_slice(&1.5f64.to_ne_bytes());
    expected.extend_from_slice(&2.5f32.to_ne_bytes());
    expected.extend_from_slice(&(-3i32).to_ne_bytes());
    for x in [4.0f32, 5.0, 6.0, 7.0, 8.0, 9.0] {
        expected.extend_from_slice(&x.to_ne_bytes());
    }
    assert_eq!(expected.len(), 40);
    assert_eq!(state.to_bytes(), expected);
}

#[test]
fn test_bsmd_image_places_nested_records() {
    let mut data = BIDSSharedMemoryData::default();
    data.version_num = 203;
    data.spec_data = Spec { b: 8, p: 5, a: 4, j: 1, c: 10 };
    data.handle_data = Hand { b: 3, p: 2, r: 1, c: 0 };
    let bytes = data.to_bytes();
    assert_eq!(bytes.len(), 96);
    assert_eq!(bytes[4..8], 203i32.to_ne_bytes());
    assert_eq!(bytes[8..28], data.spec_data.to_bytes()[..]);
    assert_eq!(bytes[72..88], data.handle_data.to_bytes()[..]);
}
