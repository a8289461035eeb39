use pool_scanner::filter::{
    admits_all_filters, pool_filters, pool_scan, u64_from_le_bytes, u64_to_le_bytes,
    AccountFilter, DataEncoding, MIN_LIQUIDITY, MIN_LIQUIDITY_OFFSET, POOL_DATA_SIZE,
};

fn pool_data(field: &[u8]) -> Vec<u8> {
    let mut data = vec![7u8; 165];
    data[96..104].copy_from_slice(field);
    data
}

#[test]
fn min_liquidity_encodes_as_fixed_bytes() {
    assert_eq!(u64_to_le_bytes(MIN_LIQUIDITY), vec![0, 242, 5, 42, 1, 0, 0, 0]);
    assert_eq!(u64_to_le_bytes(MIN_LIQUIDITY), MIN_LIQUIDITY.to_le_bytes().to_vec());
}

#[test]
fn le_bytes_round_trip() {
    for v in [0u64, 1, 255, 256, MIN_LIQUIDITY, u64::MAX, 0x0102030405060708] {
        let b = u64_to_le_bytes(v);
        assert_eq!(b.len(), 8);
        assert_eq!(u64_from_le_bytes(&b), v);
    }
    assert_eq!(u64_from_le_bytes(&[8, 7, 6, 5, 4, 3, 2, 1]), 0x0102030405060708);
}

#[test]
fn pool_filters_are_size_then_liquidity() {
    let f = pool_filters();
    assert_eq!(f.len(), 2);
    assert!(matches!(f[0], AccountFilter::DataSize(165)));
    match &f[1] {
        AccountFilter::Memcmp { offset, bytes } => {
            assert_eq!(*offset, 96);
            assert_eq!(bytes, &vec![0, 242, 5, 42, 1, 0, 0, 0]);
        }
        _ => panic!("second filter is not a byte match"),
    }
    assert_eq!(POOL_DATA_SIZE, 165);
    assert_eq!(MIN_LIQUIDITY_OFFSET, 96);
}

#[test]
fn pool_filters_admit_matching_data() {
    let f = pool_filters();
    let data = pool_data(&MIN_LIQUIDITY.to_le_bytes());
    assert!(admits_all_filters(&f, &data));
    assert_eq!(u64_from_le_bytes(&data[96..104]), MIN_LIQUIDITY);
}

#[test]
fn pool_filters_refuse_other_data() {
    let f = pool_filters();
    let other_value = pool_data(&(MIN_LIQUIDITY + 1).to_le_bytes());
    assert!(!admits_all_filters(&f, &other_value));
    let mut short = pool_data(&MIN_LIQUIDITY.to_le_bytes());
    short.pop();
    assert!(!admits_all_filters(&f, &short));
    assert!(f[1].admits(&short));
    assert!(!f[0].admits(&short));
    assert!(!f[1].admits(&[0u8; 100]));
    assert!(admits_all_filters(&vec![], &[]));
}

#[test]
fn memcmp_at_end_of_data() {
    let f = AccountFilter::Memcmp { offset: 2, bytes: vec![3, 4] };
    assert!(f.admits(&[1, 2, 3, 4]));
    assert!(!f.admits(&[1, 2, 3]));
    assert!(!f.admits(&[1, 2, 3, 5]));
    let empty = AccountFilter::Memcmp { offset: 4, bytes: vec![] };
    assert!(empty.admits(&[1, 2, 3, 4]));
    assert!(!empty.admits(&[1, 2, 3]));
}

#[test]
fn pool_scan_asks_for_base64() {
    let r = pool_scan([9u8; 32]);
    assert_eq!(r.program, [9u8; 32]);
    assert_eq!(r.filters.len(), 2);
    assert_eq!(r.encoding, DataEncoding::Base64);
}
