use bids_smemlib::smem::windows::{round_up_to_page, to_wide_string};

#[test]
fn test_round_up_to_page() {
    assert_eq!(round_up_to_page(0), 4096);
    assert_eq!(round_up_to_page(1), 4096);
    assert_eq!(round_up_to_page(4096), 4096);
    assert_eq!(round_up_to_page(4097), 8192);
    assert_eq!(round_up_to_page(10000), 12288);
}

#[test]
fn test_to_wide_string() {
    assert_eq!(to_wide_string(""), vec![0u16]);
    assert_eq!(to_wide_string("BIDSSharedMemory"), {
        let mut v: Vec<u16> = "BIDSSharedMemory".encode_utf16().collect();
        v.push(0);
        v
    });
    // Characters outside the basic multilingual plane take two code units.
    let s = "a\u{1F600}é";
    let mut expected: Vec<u16> = s.encode_utf16().collect();
    expected.push(0);
    assert_eq!(to_wide_string(s), expected);
    assert_eq!(to_wide_string(s).len(), 5);
}

#[test]
fn test_round_up_to_page_at_the_top() {
    assert_eq!(round_up_to_page(u64::MAX - 4095), u64::MAX - 4095);
    assert_eq!(round_up_to_page(u64::MAX - 8191), u64::MAX - 8191);
    assert_eq!(round_up_to_page(u64::MAX - 8190), u64::MAX - 4095);
}
