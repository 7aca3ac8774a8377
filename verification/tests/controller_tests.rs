use bids_smemlib::controller::{ArrayDataSMemCtrler, SMemCtrler};
use bids_smemlib::types::bsmd::BSMD_OFFSET_SPEC_DATA;
use bids_smemlib::types::{BIDSSharedMemoryData, Hand, Spec, VERSION};
use bids_smemlib::SMemError;

// ---- SMemCtrler tests ----

#[test]
fn test_struct_ctrler_write_read() {
    let mut ctrler: SMemCtrler<Spec> = SMemCtrler::in_memory("test_ctrler_spec");

    let spec = Spec {
        b: 8,
        p: 5,
        a: 2,
        j: 7,
        c: 10,
    };
    ctrler.write(&spec).unwrap();
    let read_back = ctrler.read().unwrap();
    assert_eq!(spec, read_back);
}

#[test]
fn test_struct_ctrler_cached_value() {
    let mut ctrler: SMemCtrler<Spec> = SMemCtrler::in_memory("test_cached");

    let spec = Spec {
        b: 1,
        p: 2,
        a: 3,
        j: 4,
        c: 5,
    };
    ctrler.write(&spec).unwrap();
    assert_eq!(ctrler.cached_value(), spec);
}

#[test]
fn test_struct_ctrler_bsmd() {
    let mut ctrler: SMemCtrler<BIDSSharedMemoryData> = SMemCtrler::in_memory("test_ctrler_bsmd");

    let mut bsmd = BIDSSharedMemoryData::default();
    bsmd.set_is_enabled(true);
    bsmd.version_num = VERSION;
    bsmd.spec_data = Spec {
        b: 8,
        p: 5,
        a: 2,
        j: 7,
        c: 10,
    };
    bsmd.state_data.z = 5000.0f64.to_bits();
    bsmd.state_data.v = 120.0f32.to_bits();
    bsmd.handle_data.p = 4;
    bsmd.handle_data.r = 1;
    bsmd.set_is_door_closed(true);

    ctrler.write(&bsmd).unwrap();
    let read_back = ctrler.read().unwrap();
    assert_eq!(bsmd, read_back);
    assert!(read_back.is_enabled());
    assert!(read_back.is_door_closed());
}

#[test]
fn test_struct_ctrler_partial_write() {
    let mut ctrler: SMemCtrler<BIDSSharedMemoryData> = SMemCtrler::in_memory("test_partial");

    // Write initial BSMD
    let mut bsmd = BIDSSharedMemoryData::default();
    bsmd.set_is_enabled(true);
    bsmd.version_num = VERSION;
    ctrler.write(&bsmd).unwrap();

    // Partial write: update just the Spec
    let spec = Spec {
        b: 8,
        p: 5,
        a: 2,
        j: 7,
        c: 10,
    };
    let offset = BSMD_OFFSET_SPEC_DATA as u64;
    ctrler.write_field(offset, &spec).unwrap();

    // Read back and verify
    let read_back = ctrler.read().unwrap();
    assert_eq!(read_back.spec_data, spec);
    assert!(read_back.is_enabled());
    assert_eq!(read_back.version_num, VERSION);
}

#[test]
fn test_struct_ctrler_try_read_write() {
    let mut ctrler: SMemCtrler<Hand> = SMemCtrler::in_memory("test_try");

    let hand = Hand {
        b: 3,
        p: 2,
        r: 1,
        c: 0,
    };
    assert!(ctrler.try_write(&hand));
    let read_back = ctrler.try_read().unwrap();
    assert_eq!(hand, read_back);
}

#[test]
fn test_struct_ctrler_no_smem() {
    let mut ctrler: SMemCtrler<Spec> = SMemCtrler::no_smem();
    assert!(ctrler.read().is_err());
    assert!(ctrler.try_read().is_none());
}

// ---- ArrayDataSMemCtrler tests ----

#[test]
fn test_array_ctrler_write_read() {
    let mut ctrler: ArrayDataSMemCtrler<i32> = ArrayDataSMemCtrler::in_memory("test_arr");

    let data: Vec<i32> = (0..100).collect();
    ctrler.write(&data).unwrap();
    let read_back = ctrler.read().unwrap();
    assert_eq!(data, read_back);
}

#[test]
fn test_array_ctrler_empty() {
    let mut ctrler: ArrayDataSMemCtrler<i32> = ArrayDataSMemCtrler::in_memory("test_arr_empty");

    let data: Vec<i32> = Vec::new();
    ctrler.write(&data).unwrap();
    let read_back = ctrler.read().unwrap();
    assert!(read_back.is_empty());
}

#[test]
fn test_array_ctrler_256_elements() {
    let mut ctrler: ArrayDataSMemCtrler<i32> = ArrayDataSMemCtrler::in_memory("test_arr_256");

    let data: Vec<i32> = (0..256).collect();
    ctrler.write(&data).unwrap();
    let read_back = ctrler.read().unwrap();
    assert_eq!(data, read_back);
}

#[test]
fn test_array_ctrler_read_at() {
    let mut ctrler: ArrayDataSMemCtrler<i32> = ArrayDataSMemCtrler::in_memory("test_arr_at");

    let data: Vec<i32> = (100..200).collect();
    ctrler.write(&data).unwrap();

    assert_eq!(ctrler.read_at(0).unwrap(), 100);
    assert_eq!(ctrler.read_at(50).unwrap(), 150);
    assert_eq!(ctrler.read_at(99).unwrap(), 199);
}

#[test]
fn test_array_ctrler_write_at() {
    let mut ctrler: ArrayDataSMemCtrler<i32> = ArrayDataSMemCtrler::in_memory("test_arr_write_at");

    let data: Vec<i32> = vec![0; 10];
    ctrler.write(&data).unwrap();

    ctrler.write_at(5, &999).unwrap();
    assert_eq!(ctrler.read_at(5).unwrap(), 999);
    // Other elements should be unchanged
    assert_eq!(ctrler.read_at(0).unwrap(), 0);
    assert_eq!(ctrler.read_at(9).unwrap(), 0);
}

#[test]
fn test_array_ctrler_index_out_of_range() {
    let mut ctrler: ArrayDataSMemCtrler<i32> = ArrayDataSMemCtrler::in_memory("test_arr_oob");

    let data: Vec<i32> = vec![1, 2, 3];
    ctrler.write(&data).unwrap();

    assert!(ctrler.read_at(3).is_err());
    assert!(ctrler.write_at(3, &10).is_err());
}

#[test]
fn test_array_ctrler_cached_value() {
    let mut ctrler: ArrayDataSMemCtrler<i32> = ArrayDataSMemCtrler::in_memory("test_arr_cached");

    let data: Vec<i32> = vec![10, 20, 30];
    ctrler.write(&data).unwrap();
    assert_eq!(ctrler.cached_value(), data);
}

#[test]
fn test_array_ctrler_overwrite() {
    let mut ctrler: ArrayDataSMemCtrler<i32> =
        ArrayDataSMemCtrler::in_memory("test_arr_overwrite");

    let data1: Vec<i32> = vec![1, 2, 3, 4, 5];
    ctrler.write(&data1).unwrap();
    assert_eq!(ctrler.read().unwrap(), data1);

    let data2: Vec<i32> = vec![10, 20];
    ctrler.write(&data2).unwrap();
    assert_eq!(ctrler.read().unwrap(), data2);
}

#[test]
fn test_array_ctrler_u8_keys() {
    let mut ctrler: ArrayDataSMemCtrler<u8> = ArrayDataSMemCtrler::in_memory("test_keys");

    let mut keys = vec![0u8; 128];
    keys[0] = 1;
    keys[5] = 1;
    keys[127] = 1;

    ctrler.write(&keys).unwrap();
    let read_back = ctrler.read().unwrap();
    assert_eq!(keys, read_back);
}

#[test]
fn test_array_ctrler_max_inline() {
    // For i32 elements: max inline = (4096 - 4) / 4 = 1023
    let mut ctrler: ArrayDataSMemCtrler<i32> =
        ArrayDataSMemCtrler::in_memory("test_arr_max_inline");

    let data: Vec<i32> = (0..1023).collect();
    ctrler.write(&data).unwrap();
    let read_back = ctrler.read().unwrap();
    assert_eq!(data, read_back);
}

// ---- Further cases ----

#[test]
fn test_array_ctrler_large_tier() {
    // 1024 i32 elements do not fit after the length prefix of one page.
    let mut ctrler: ArrayDataSMemCtrler<i32> = ArrayDataSMemCtrler::in_memory("test_arr_large");

    let data: Vec<i32> = (0..5000).map(|i| i * 3 - 7).collect();
    ctrler.write(&data).unwrap();
    assert_eq!(ctrler.read().unwrap(), data);
    assert_eq!(ctrler.read_at(4999).unwrap(), 4999 * 3 - 7);
    ctrler.write_at(1234, &-1).unwrap();
    let mut expected = data.clone();
    expected[1234] = -1;
    assert_eq!(ctrler.read().unwrap(), expected);
    assert_eq!(ctrler.cached_value(), expected);
    match ctrler.read_at(5000) {
        Err(SMemError::IndexOutOfRange { index, length }) => {
            assert_eq!((index, length), (5000, 5000));
        }
        other => panic!("unexpected result: {other:?}"),
    }
}

#[test]
fn test_array_ctrler_large_then_small_then_large() {
    let mut ctrler: ArrayDataSMemCtrler<i32> = ArrayDataSMemCtrler::in_memory("test_arr_mix");

    let big: Vec<i32> = (0..2000).collect();
    ctrler.write(&big).unwrap();
    let small: Vec<i32> = vec![7, 8, 9];
    ctrler.write(&small).unwrap();
    assert_eq!(ctrler.read().unwrap(), small);
    ctrler.write(&big).unwrap();
    assert_eq!(ctrler.read().unwrap(), big);
    let other_big: Vec<i32> = (0..3000).rev().collect();
    ctrler.write(&other_big).unwrap();
    assert_eq!(ctrler.read().unwrap(), other_big);
}

#[test]
fn test_array_ctrler_index_error_values() {
    let mut ctrler: ArrayDataSMemCtrler<i32> = ArrayDataSMemCtrler::in_memory("test_arr_err");
    ctrler.write(&[1, 2, 3]).unwrap();
    match ctrler.write_at(7, &1) {
        Err(SMemError::IndexOutOfRange { index, length }) => {
            assert_eq!((index, length), (7, 3));
        }
        other => panic!("unexpected result: {other:?}"),
    }
    // A failed write_at changes nothing.
    assert_eq!(ctrler.read().unwrap(), vec![1, 2, 3]);
}

#[test]
fn test_array_ctrler_fresh_is_empty() {
    let mut ctrler: ArrayDataSMemCtrler<i32> = ArrayDataSMemCtrler::in_memory("test_arr_fresh");
    assert!(ctrler.read().unwrap().is_empty());
    assert!(ctrler.read_at(0).is_err());
    assert!(ctrler.cached_value().is_empty());
}

#[test]
fn test_array_ctrler_new() {
    let mut ctrler: ArrayDataSMemCtrler<i32> = ArrayDataSMemCtrler::new("test_arr_new").unwrap();
    ctrler.write(&[4, 5]).unwrap();
    assert_eq!(ctrler.read().unwrap(), vec![4, 5]);
}

#[test]
fn test_struct_ctrler_initial_and_errors() {
    let mut ctrler: SMemCtrler<Spec> = SMemCtrler::new("test_struct_new").unwrap();
    assert_eq!(ctrler.cached_value(), Spec::default());
    assert_eq!(ctrler.read().unwrap(), Spec::default());

    let mut none: SMemCtrler<Spec> = SMemCtrler::no_smem();
    assert!(!none.try_write(&Spec::default()));
    assert!(matches!(none.write(&Spec::default()), Err(SMemError::NotInitialized)));
    assert!(matches!(none.write_field(0, &1i32), Err(SMemError::NotInitialized)));

    // A field written beyond the region fails and keeps the cache.
    let spec = Spec {
        b: 1,
        p: 1,
        a: 1,
        j: 1,
        c: 1,
    };
    ctrler.write(&spec).unwrap();
    match ctrler.write_field(4094, &7i32) {
        Err(SMemError::OutOfBounds { pos, size, capacity }) => {
            assert_eq!((pos, size, capacity), (4094, 4, 4096));
        }
        other => panic!("unexpected result: {other:?}"),
    }
    assert_eq!(ctrler.cached_value(), spec);
    // A field written within the region is re-read into the cache.
    ctrler.write_field(4, &9i32).unwrap();
    assert_eq!(ctrler.cached_value().p, 9);
}

#[test]
fn test_array_ctrler_other_scalars() {
    let mut a: ArrayDataSMemCtrler<u16> = ArrayDataSMemCtrler::in_memory("test_arr_u16");
    let v16: Vec<u16> = (0..3000u16).map(|i| i.wrapping_mul(37)).collect();
    a.write(&v16).unwrap();
    assert_eq!(a.read().unwrap(), v16);
    assert_eq!(a.read_at(2999).unwrap(), 2999u16.wrapping_mul(37));

    let mut b: ArrayDataSMemCtrler<i16> = ArrayDataSMemCtrler::in_memory("test_arr_i16");
    b.write(&[-1, i16::MIN, i16::MAX, 0]).unwrap();
    assert_eq!(b.read().unwrap(), vec![-1, i16::MIN, i16::MAX, 0]);

    let mut c: ArrayDataSMemCtrler<u32> = ArrayDataSMemCtrler::in_memory("test_arr_u32");
    c.write(&[u32::MAX, 7]).unwrap();
    assert_eq!(c.read().unwrap(), vec![u32::MAX, 7]);

    let mut d: ArrayDataSMemCtrler<u64> = ArrayDataSMemCtrler::in_memory("test_arr_u64");
    let v64: Vec<u64> = (0..600u64).map(|i| i << 40).collect();
    d.write(&v64).unwrap();
    assert_eq!(d.read().unwrap(), v64);

    let mut e: ArrayDataSMemCtrler<i64> = ArrayDataSMemCtrler::in_memory("test_arr_i64");
    e.write(&[i64::MIN, -5, i64::MAX]).unwrap();
    e.write_at(1, &42).unwrap();
    assert_eq!(e.read().unwrap(), vec![i64::MIN, 42, i64::MAX]);
}

#[test]
fn test_array_ctrler_tier_switches_keep_data() {
    let mut c: ArrayDataSMemCtrler<i32> = ArrayDataSMemCtrler::in_memory("test_arr_tiers");
    let big: Vec<i32> = (0..2000).collect();
    c.write(&big).unwrap();
    assert_eq!(c.read_at(1999).unwrap(), 1999);
    c.write(&[1, 2, 3]).unwrap();
    assert_eq!(c.read().unwrap(), vec![1, 2, 3]);
    let big2: Vec<i32> = (0..1500).map(|i| -i).collect();
    c.write(&big2).unwrap();
    c.write_at(1499, &7).unwrap();
    let mut expected = big2.clone();
    expected[1499] = 7;
    assert_eq!(c.read().unwrap(), expected);
    assert_eq!(c.cached_value(), expected);
}
