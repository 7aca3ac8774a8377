use bids_smemlib::ctrl_input::{CtrlInput, KEY_ARRAY_SIZE_MAX};
use bids_smemlib::smem_lib::SMemLib;
use bids_smemlib::types::{BIDSSharedMemoryData, Hand, Hands, OpenD, Spec, State, VERSION};
use bids_smemlib::SMemError;

#[test]
fn test_smem_lib_bsmd_round_trip() {
    let mut lib = SMemLib::in_memory();

    let mut bsmd = BIDSSharedMemoryData::default();
    bsmd.set_is_enabled(true);
    bsmd.version_num = VERSION;
    bsmd.spec_data = Spec {
        b: 8,
        p: 5,
        a: 2,
        j: 7,
        c: 10,
    };
    bsmd.state_data = State {
        z: 12345.0f64.to_bits(),
        v: 90.0f32.to_bits(),
        t: 43200000,
        bc: 0.0f32.to_bits(),
        mr: 780.0f32.to_bits(),
        er: 490.0f32.to_bits(),
        bp: 490.0f32.to_bits(),
        sap: 490.0f32.to_bits(),
        i: 150.0f32.to_bits(),
    };
    bsmd.handle_data = Hand {
        b: 0,
        p: 3,
        r: 1,
        c: 0,
    };
    bsmd.set_is_door_closed(true);

    lib.write_bsmd(&bsmd).unwrap();
    let read_back = lib.read_bsmd().unwrap();
    assert_eq!(bsmd, read_back);
}

#[test]
fn test_smem_lib_partial_writes() {
    let mut lib = SMemLib::in_memory();

    // Write initial BSMD
    let mut bsmd = BIDSSharedMemoryData::default();
    bsmd.set_is_enabled(true);
    bsmd.version_num = VERSION;
    lib.write_bsmd(&bsmd).unwrap();

    // Partial write spec
    let spec = Spec {
        b: 8,
        p: 5,
        a: 2,
        j: 7,
        c: 10,
    };
    lib.write_spec(&spec).unwrap();

    // Partial write state
    let state = State {
        z: 1000.0f64.to_bits(),
        v: 60.0f32.to_bits(),
        t: 36000000,
        bc: 100.0f32.to_bits(),
        mr: 780.0f32.to_bits(),
        er: 490.0f32.to_bits(),
        bp: 490.0f32.to_bits(),
        sap: 490.0f32.to_bits(),
        i: 50.0f32.to_bits(),
    };
    lib.write_state(&state).unwrap();

    // Partial write handle
    let hand = Hand {
        b: 2,
        p: 0,
        r: -1,
        c: 0,
    };
    lib.write_handle(&hand).unwrap();

    // Partial write version
    lib.write_version(999).unwrap();

    // Read back and verify all fields
    let read_back = lib.read_bsmd().unwrap();
    assert!(read_back.is_enabled());
    assert_eq!(read_back.version_num, 999);
    assert_eq!(read_back.spec_data, spec);
    assert_eq!(read_back.state_data, state);
    assert_eq!(read_back.handle_data, hand);
}

#[test]
fn test_smem_lib_open_d() {
    let mut lib = SMemLib::in_memory();

    let mut open_d = OpenD::default();
    open_d.set_is_enabled(true);
    open_d.radius = 500.0f64.to_bits();
    open_d.cant = 105.0f64.to_bits();
    open_d.pitch = (-15.0f64).to_bits();
    open_d.elap_time = 16.67f64.to_bits();
    open_d.pre_train.set_is_enabled(true);
    open_d.pre_train.location = 5000.0f64.to_bits();
    open_d.pre_train.distance = 1200.0f64.to_bits();
    open_d.pre_train.speed = 75.0f64.to_bits();
    open_d.self_b_count = 5;
    open_d.self_b_position = 2;

    lib.write_open_d(&open_d).unwrap();
    let read_back = lib.read_open_d().unwrap();
    assert_eq!(open_d, read_back);
}

#[test]
fn test_smem_lib_panel() {
    let mut lib = SMemLib::in_memory();

    let panel: Vec<i32> = (0..256).collect();
    lib.write_panel(&panel).unwrap();
    let read_back = lib.read_panel().unwrap();
    assert_eq!(panel, read_back);
}

#[test]
fn test_smem_lib_sound() {
    let mut lib = SMemLib::in_memory();

    let sound: Vec<i32> = vec![0, 1, 2, -1000, 0, 1, 0, -1000];
    lib.write_sound(&sound).unwrap();
    let read_back = lib.read_sound().unwrap();
    assert_eq!(sound, read_back);
}

#[test]
fn test_smem_lib_empty_panel() {
    let mut lib = SMemLib::in_memory();

    lib.write_panel(&[]).unwrap();
    let read_back = lib.read_panel().unwrap();
    assert!(read_back.is_empty());
}

// ---- CtrlInput tests ----

#[test]
fn test_ctrl_input_keys() {
    let mut ctrl = CtrlInput::in_memory();

    let mut keys = [false; 128];
    keys[0] = true;
    keys[5] = true;
    keys[15] = true;
    keys[127] = true;

    ctrl.write_keys(&keys).unwrap();
    let read_back = ctrl.read_keys().unwrap();
    assert_eq!(keys, read_back);
}

#[test]
fn test_ctrl_input_single_key() {
    let mut ctrl = CtrlInput::in_memory();

    // Initialize with all false
    let keys = [false; 128];
    ctrl.write_keys(&keys).unwrap();

    // Write single key
    ctrl.write_key(10, true).unwrap();
    assert!(ctrl.read_key(10).unwrap());
    assert!(!ctrl.read_key(0).unwrap());
    assert!(!ctrl.read_key(127).unwrap());
}

#[test]
fn test_ctrl_input_hands() {
    let mut ctrl = CtrlInput::in_memory();

    let hands = Hands {
        b: 5,
        p: 3,
        r: 1,
        s: 0,
        b_pos: 0.625f64.to_bits(),
        p_pos: 0.6f64.to_bits(),
    };

    ctrl.write_hands(&hands).unwrap();
    let read_back = ctrl.read_hands().unwrap();
    assert_eq!(hands, read_back);
}

#[test]
fn test_ctrl_input_key_out_of_range() {
    let mut ctrl = CtrlInput::in_memory();
    assert!(ctrl.read_key(128).is_err());
    assert!(ctrl.write_key(128, true).is_err());
}

// ---- Further cases ----

#[test]
fn test_ctrl_input_short_and_long_key_arrays() {
    let mut ctrl = CtrlInput::in_memory();

    // Fewer keys than the maximum: the rest read as not pressed.
    ctrl.write_keys(&[true, false, true]).unwrap();
    let read_back = ctrl.read_keys().unwrap();
    assert!(read_back[0] && !read_back[1] && read_back[2]);
    assert!(read_back[3..].iter().all(|k| !k));
    // Only three keys are stored: key 3 is out of range.
    match ctrl.read_key(3) {
        Err(SMemError::IndexOutOfRange { index, length }) => {
            assert_eq!((index, length), (3, 3));
        }
        other => panic!("unexpected result: {other:?}"),
    }

    // More keys than the maximum: the extra ones are dropped.
    let many = vec![true; 200];
    ctrl.write_keys(&many).unwrap();
    let read_back = ctrl.read_keys().unwrap();
    assert_eq!(read_back.len(), KEY_ARRAY_SIZE_MAX);
    assert!(read_back.iter().all(|k| *k));
    match ctrl.write_key(150, false) {
        Err(SMemError::IndexOutOfRange { index, length }) => {
            assert_eq!((index, length), (150, 128));
        }
        other => panic!("unexpected result: {other:?}"),
    }
}

#[test]
fn test_ctrl_input_fresh_and_new() {
    let mut ctrl: CtrlInput = CtrlInput::new().unwrap();
    assert_eq!(ctrl.read_keys().unwrap(), [false; 128]);
    assert!(ctrl.read_key(0).is_err());
    assert_eq!(ctrl.read_hands().unwrap(), Hands::default());
}

#[test]
fn test_smem_lib_new_and_fresh_state() {
    let mut lib: SMemLib = SMemLib::new().unwrap();
    assert_eq!(lib.read_bsmd().unwrap(), BIDSSharedMemoryData::default());
    assert_eq!(lib.read_open_d().unwrap(), OpenD::default());
    assert!(lib.read_panel().unwrap().is_empty());
    assert!(lib.read_sound().unwrap().is_empty());
}

#[test]
fn test_smem_lib_partial_write_keeps_other_fields() {
    let mut lib = SMemLib::in_memory();
    let mut bsmd = BIDSSharedMemoryData::default();
    bsmd.set_is_door_closed(true);
    bsmd.handle_data = Hand {
        b: 1,
        p: 2,
        r: 1,
        c: 2,
    };
    bsmd.state_data.t = 123;
    lib.write_bsmd(&bsmd).unwrap();
    lib.write_version(5).unwrap();
    let read_back = lib.read_bsmd().unwrap();
    let mut expected = bsmd;
    expected.version_num = 5;
    assert_eq!(read_back, expected);
    assert!(read_back.is_door_closed());
    assert!(!read_back.is_enabled());
}

#[test]
fn test_smem_lib_large_panel() {
    let mut lib = SMemLib::in_memory();
    let panel: Vec<i32> = (0..1500).collect();
    lib.write_panel(&panel).unwrap();
    assert_eq!(lib.read_panel().unwrap(), panel);
    // The sound array is independent of the panel array.
    assert!(lib.read_sound().unwrap().is_empty());
}

#[test]
fn test_ctrl_input_refused_key_keeps_keys() {
    let mut ctrl = CtrlInput::in_memory();
    assert_eq!(ctrl.read_keys().unwrap(), [false; 128]);
    ctrl.write_keys(&[true, false, true]).unwrap();
    assert!(matches!(
        ctrl.write_key(3, true),
        Err(SMemError::IndexOutOfRange { index: 3, length: 3 })
    ));
    assert!(matches!(
        ctrl.write_key(128, true),
        Err(SMemError::IndexOutOfRange { index: 128, length: 128 })
    ));
    let keys = ctrl.read_keys().unwrap();
    assert!(keys[0] && !keys[1] && keys[2] && !keys[3]);
}
