use bids_smemlib::smem::in_memory::InMemorySMemIF;
use bids_smemlib::smem::{open_in_memory, open_or_create, validate_bounds, SMemIF, SMemIFExt};
use bids_smemlib::types::{BIDSSharedMemoryData, Hand, Hands, OpenD, Spec, State, VERSION};
use bids_smemlib::SMemError;

#[test]
fn test_basic_read_write() {
    let mut smem = InMemorySMemIF::new("test", 64);
    let data = [1u8, 2, 3, 4];
    smem.write_bytes(0, &data).unwrap();

    let mut buf = [0u8; 4];
    smem.read_bytes(0, &mut buf).unwrap();
    assert_eq!(buf, data);
}

#[test]
fn test_out_of_bounds() {
    let mut smem = InMemorySMemIF::new("test", 4);
    let result = smem.write_bytes(2, &[1, 2, 3]);
    assert!(result.is_err());
}

#[test]
fn test_name_and_capacity() {
    let smem = InMemorySMemIF::new("hello", 128);
    assert_eq!(smem.name(), "hello");
    assert_eq!(smem.capacity(), 128);
    assert!(smem.is_newly_created());
}

#[test]
fn test_read_write_struct() {
    let mut smem = InMemorySMemIF::new("test_struct", 4096);

    let spec = Spec {
        b: 8,
        p: 5,
        a: 2,
        j: 7,
        c: 10,
    };
    smem.write_value(0, &spec).unwrap();
    let read_back: Spec = smem.read_value(0).unwrap();
    assert_eq!(spec, read_back);
}

#[test]
fn test_read_write_bsmd() {
    let mut smem = InMemorySMemIF::new("test_bsmd", 4096);

    let mut bsmd = BIDSSharedMemoryData::default();
    bsmd.set_is_enabled(true);
    bsmd.version_num = VERSION;
    bsmd.spec_data = Spec {
        b: 8,
        p: 5,
        a: 2,
        j: 7,
        c: 10,
    };
    bsmd.state_data = State {
        z: 5000.0f64.to_bits(),
        v: 120.0f32.to_bits(),
        t: 43200000,
        bc: 0.0f32.to_bits(),
        mr: 780.0f32.to_bits(),
        er: 490.0f32.to_bits(),
        bp: 490.0f32.to_bits(),
        sap: 490.0f32.to_bits(),
        i: 200.0f32.to_bits(),
    };
    bsmd.handle_data = Hand {
        b: 0,
        p: 4,
        r: 1,
        c: 0,
    };
    bsmd.set_is_door_closed(true);

    smem.write_value(0, &bsmd).unwrap();
    let read_back: BIDSSharedMemoryData = smem.read_value(0).unwrap();
    assert_eq!(bsmd, read_back);
    assert!(read_back.is_enabled());
    assert!(read_back.is_door_closed());
    assert_eq!(read_back.version_num, VERSION);
}

#[test]
fn test_read_write_open_d() {
    let mut smem = InMemorySMemIF::new("test_open_d", 4096);

    let mut open_d = OpenD::default();
    open_d.set_is_enabled(true);
    open_d.radius = 300.0f64.to_bits();
    open_d.cant = 80.0f64.to_bits();
    open_d.pitch = 10.0f64.to_bits();
    open_d.elap_time = 33.33f64.to_bits();
    open_d.pre_train.set_is_enabled(true);
    open_d.pre_train.location = 10000.0f64.to_bits();
    open_d.pre_train.distance = 500.0f64.to_bits();
    open_d.pre_train.speed = 85.0f64.to_bits();
    open_d.self_b_count = 3;
    open_d.self_b_position = 1;

    smem.write_value(0, &open_d).unwrap();
    let read_back: OpenD = smem.read_value(0).unwrap();
    assert_eq!(open_d, read_back);
}

#[test]
fn test_read_write_array() {
    let mut smem = InMemorySMemIF::new("test_array", 4096);

    let data: Vec<i32> = (0..256).collect();
    smem.write_array(0, &data).unwrap();
    let read_back: Vec<i32> = smem.read_array(0, 256).unwrap();
    assert_eq!(data, read_back);
}

#[test]
fn test_read_write_at_offset() {
    let mut smem = InMemorySMemIF::new("test_offset", 4096);

    let spec = Spec {
        b: 1,
        p: 2,
        a: 3,
        j: 4,
        c: 5,
    };
    smem.write_value(100, &spec).unwrap();
    let read_back: Spec = smem.read_value(100).unwrap();
    assert_eq!(spec, read_back);
}

#[test]
fn test_out_of_bounds_read() {
    let smem = InMemorySMemIF::new("test_oob", 16);
    let result: Result<Spec, _> = smem.read_value(0);
    // Spec is 20 bytes, capacity is 16 -> should fail
    assert!(result.is_err());
}

#[test]
fn test_out_of_bounds_write() {
    let mut smem = InMemorySMemIF::new("test_oob_write", 16);
    let spec = Spec::default();
    let result = smem.write_value(0, &spec);
    assert!(result.is_err());
}

#[test]
fn test_zero_length_array() {
    let mut smem = InMemorySMemIF::new("test_zero", 4096);
    let empty: Vec<i32> = Vec::new();
    smem.write_array(0, &empty).unwrap();
    let read_back: Vec<i32> = smem.read_array(0, 0).unwrap();
    assert!(read_back.is_empty());
}

#[test]
fn test_hands_read_write() {
    let mut smem = InMemorySMemIF::new("test_hands", 4096);

    let hands = Hands {
        b: 5,
        p: 3,
        r: -1,
        s: 0,
        b_pos: 0.625f64.to_bits(),
        p_pos: 0.6f64.to_bits(),
    };
    smem.write_value(0, &hands).unwrap();
    let read_back: Hands = smem.read_value(0).unwrap();
    assert_eq!(hands, read_back);
}

// ---- Further cases ----

#[test]
fn test_new_region_is_zeroed() {
    let smem = InMemorySMemIF::new("zeros", 32);
    let mut buf = [7u8; 32];
    smem.read_bytes(0, &mut buf).unwrap();
    assert_eq!(buf, [0u8; 32]);
    let spec: Spec = smem.read_value(8).unwrap();
    assert_eq!(spec, Spec::default());
}

#[test]
fn test_out_of_bounds_error_values() {
    let mut smem = InMemorySMemIF::new("oob", 16);
    match smem.write_bytes(10, &[0u8; 7]) {
        Err(SMemError::OutOfBounds { pos, size, capacity }) => {
            assert_eq!((pos, size, capacity), (10, 7, 16));
        }
        other => panic!("unexpected result: {other:?}"),
    }
    let mut buf = [9u8; 5];
    match smem.read_bytes(12, &mut buf) {
        Err(SMemError::OutOfBounds { pos, size, capacity }) => {
            assert_eq!((pos, size, capacity), (12, 5, 16));
        }
        other => panic!("unexpected result: {other:?}"),
    }
    // A failed read leaves the buffer as it was.
    assert_eq!(buf, [9u8; 5]);
    // An access that ends exactly at the capacity succeeds.
    smem.write_bytes(11, &[1u8; 5]).unwrap();
    smem.read_bytes(11, &mut buf).unwrap();
    assert_eq!(buf, [1u8; 5]);
}

#[test]
fn test_failed_write_changes_nothing() {
    let mut smem = InMemorySMemIF::new("unchanged", 8);
    smem.write_bytes(0, &[1, 2, 3, 4, 5, 6, 7, 8]).unwrap();
    assert!(smem.write_bytes(4, &[9, 9, 9, 9, 9]).is_err());
    let mut buf = [0u8; 8];
    smem.read_bytes(0, &mut buf).unwrap();
    assert_eq!(buf, [1, 2, 3, 4, 5, 6, 7, 8]);
}

#[test]
fn test_write_leaves_other_bytes() {
    let mut smem = InMemorySMemIF::new("rest", 8);
    smem.write_bytes(0, &[1, 1, 1, 1, 1, 1, 1, 1]).unwrap();
    smem.write_bytes(2, &[5, 6]).unwrap();
    let mut buf = [0u8; 8];
    smem.read_bytes(0, &mut buf).unwrap();
    assert_eq!(buf, [1, 1, 5, 6, 1, 1, 1, 1]);
}

#[test]
fn test_validate_bounds() {
    assert!(validate_bounds(0, 16, 16).is_ok());
    assert!(validate_bounds(16, 0, 16).is_ok());
    assert!(validate_bounds(17, 0, 16).is_err());
    match validate_bounds(u64::MAX, 2, u64::MAX) {
        Err(SMemError::OutOfBounds { pos, size, capacity }) => {
            assert_eq!((pos, size, capacity), (u64::MAX, 2, u64::MAX));
        }
        other => panic!("unexpected result: {other:?}"),
    }
}

#[test]
fn test_open_functions() {
    let a = open_in_memory("region_a", 100);
    assert_eq!(a.name(), "region_a");
    assert_eq!(a.capacity(), 100);
    let b: InMemorySMemIF = open_or_create("region_b", 4096).unwrap();
    assert_eq!(b.name(), "region_b");
    assert_eq!(b.capacity(), 4096);
    assert!(b.is_newly_created());
}

#[test]
fn test_array_out_of_bounds() {
    let mut smem = InMemorySMemIF::new("arr_oob", 16);
    let data: Vec<i32> = vec![1, 2, 3, 4, 5];
    match smem.write_array(0, &data) {
        Err(SMemError::OutOfBounds { pos, size, capacity }) => {
            assert_eq!((pos, size, capacity), (0, 20, 16));
        }
        other => panic!("unexpected result: {other:?}"),
    }
    let r: Result<Vec<i32>, _> = smem.read_array(4, 4);
    assert!(r.is_err());
    let ok: Vec<i32> = smem.read_array(4, 3).unwrap();
    assert_eq!(ok, vec![0, 0, 0]);
}

#[test]
fn test_value_bytes_are_native() {
    let mut smem = InMemorySMemIF::new("native", 16);
    smem.write_value(0, &0x0102_0304i32).unwrap();
    let mut buf = [0u8; 4];
    smem.read_bytes(0, &mut buf).unwrap();
    assert_eq!(buf, 0x0102_0304i32.to_ne_bytes());
    smem.write_bytes(4, &(-2i32).to_ne_bytes()).unwrap();
    let v: i32 = smem.read_value(4).unwrap();
    assert_eq!(v, -2);
}
