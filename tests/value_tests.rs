use lightscan::value::{ScanType, ScanValue, ValueType};
use lightscan::scan_result::{ScanOptions, ScanResult, ScanResults};

#[test]
fn sizes_and_alignments() {
    assert_eq!(ValueType::I8.size(), 1);
    assert_eq!(ValueType::U16.size(), 2);
    assert_eq!(ValueType::F32.size(), 4);
    assert_eq!(ValueType::I64.size(), 8);
    assert_eq!(ValueType::ByteArray(5).size(), 5);
    assert_eq!(ValueType::ByteArray(5).alignment(), 1);
    assert_eq!(ValueType::F64.alignment(), 8);
    assert_eq!(ValueType::F32.display_name(), "Float");
    assert_eq!(ScanType::Between(0, 0).display_name(), "Between");
}

#[test]
fn to_bytes_is_little_endian() {
    assert_eq!(ScanValue::I32(0x01020304).to_bytes(), vec![4, 3, 2, 1]);
    assert_eq!(ScanValue::I16(-2).to_bytes(), vec![0xFE, 0xFF]);
    assert_eq!(ScanValue::F32(1.5f32.to_bits()).to_bytes(), 1.5f32.to_le_bytes().to_vec());
    assert_eq!(ScanValue::ByteArray(vec![9, 8, 7]).to_bytes(), vec![9, 8, 7]);
}

#[test]
fn round_trip_through_bytes() {
    let values = vec![
        ScanValue::I8(-5),
        ScanValue::I16(-300),
        ScanValue::I32(-70000),
        ScanValue::I64(-5_000_000_000),
        ScanValue::U8(200),
        ScanValue::U16(60000),
        ScanValue::U32(4_000_000_000),
        ScanValue::U64(u64::MAX - 1),
        ScanValue::F32((-2.25f32).to_bits()),
        ScanValue::F64(3.75f64.to_bits()),
    ];
    for v in values {
        let bytes = v.to_bytes();
        assert_eq!(ScanValue::from_bytes(&bytes, v.value_type()), Some(v.clone()));
    }
    let bs = [1u8, 2, 3, 4, 5, 6, 7, 8, 9];
    for t in [ValueType::I16, ValueType::U32, ValueType::F64, ValueType::ByteArray(3)] {
        let v = ScanValue::from_bytes(&bs, t).unwrap();
        assert_eq!(v.to_bytes(), bs[..t.size()].to_vec());
    }
}

#[test]
fn from_bytes_needs_enough_bytes() {
    assert_eq!(ScanValue::from_bytes(&[], ValueType::I8), None);
    assert_eq!(ScanValue::from_bytes(&[1, 2, 3], ValueType::I32), None);
    assert_eq!(ScanValue::from_bytes(&[1, 2], ValueType::ByteArray(3)), None);
    assert_eq!(ScanValue::from_bytes(&[7, 0, 0, 0, 9], ValueType::I32), Some(ScanValue::I32(7)));
}

#[test]
fn exact_is_tagged_and_bit_exact() {
    assert!(ScanValue::I32(5).compare(&ScanValue::I32(5), ScanType::Exact));
    assert!(!ScanValue::I32(5).compare(&ScanValue::U32(5), ScanType::Exact));
    assert!(!ScanValue::F32(0.0f32.to_bits()).compare(&ScanValue::F32((-0.0f32).to_bits()), ScanType::Exact));
    let nan = f32::NAN.to_bits();
    assert!(ScanValue::F32(nan).compare(&ScanValue::F32(nan), ScanType::Exact));
    assert!(ScanValue::ByteArray(vec![1, 2]).compare(&ScanValue::ByteArray(vec![1, 2]), ScanType::Exact));
    assert!(!ScanValue::ByteArray(vec![1, 2]).compare(&ScanValue::ByteArray(vec![1, 2, 3]), ScanType::Exact));
}

#[test]
fn ordering_compares_numeric_values() {
    assert!(ScanValue::I32(-1).compare(&ScanValue::U8(0), ScanType::LessThan));
    assert!(ScanValue::U64(u64::MAX).compare(&ScanValue::I64(-1), ScanType::GreaterThan));
    assert!(ScanValue::F32(2.5f32.to_bits()).compare(&ScanValue::I32(2), ScanType::GreaterThan));
    assert!(ScanValue::F64((-0.5f64).to_bits()).compare(&ScanValue::F32(0.25f32.to_bits()), ScanType::LessThan));
    assert!(!ScanValue::F32(f32::NAN.to_bits()).compare(&ScanValue::I32(0), ScanType::GreaterThan));
    assert!(!ScanValue::F32(f32::NAN.to_bits()).compare(&ScanValue::I32(0), ScanType::LessThan));
    assert!(ScanValue::F32(f32::INFINITY.to_bits()).compare(&ScanValue::U64(u64::MAX), ScanType::GreaterThan));
    assert!(ScanValue::F64(1e-300f64.to_bits()).compare(&ScanValue::I8(0), ScanType::GreaterThan));
}

#[test]
fn large_integers_compare_as_f64() {
    let two53 = 1u64 << 53;
    assert!(!ScanValue::U64(two53 + 1).compare(&ScanValue::U64(two53), ScanType::GreaterThan));
    assert!(ScanValue::U64(two53 + 2).compare(&ScanValue::U64(two53), ScanType::GreaterThan));
    let rounded = ((two53 + 3) as f64).to_bits();
    assert!(ScanValue::U64(two53 + 3).compare(&ScanValue::I32(0), ScanType::Between(rounded, rounded)));
    assert!(ScanValue::I64(-((two53 + 3) as i64)).compare(&ScanValue::I32(0), ScanType::LessThan));
    assert!(!ScanValue::I64(i64::MIN).compare(&ScanValue::F64((i64::MIN as f64).to_bits()), ScanType::LessThan));
}

#[test]
fn between_is_closed() {
    let st = ScanType::Between(1.0f64.to_bits(), 2.0f64.to_bits());
    let any = ScanValue::I32(0);
    assert!(ScanValue::I32(1).compare(&any, st));
    assert!(ScanValue::I32(2).compare(&any, st));
    assert!(ScanValue::F32(1.5f32.to_bits()).compare(&any, st));
    assert!(!ScanValue::I32(3).compare(&any, st));
    assert!(!ScanValue::F64(0.999f64.to_bits()).compare(&any, st));
}

#[test]
fn history_predicates_do_not_compare_directly() {
    assert!(!ScanValue::I32(2).compare(&ScanValue::I32(1), ScanType::Increased));
    assert!(ScanType::Increased.is_next_scan_only());
    assert!(!ScanType::Exact.is_next_scan_only());
    assert!(ScanType::Between(0, 0).requires_value());
    assert!(!ScanType::Unknown.requires_value());
}

#[test]
fn scan_result_update_shifts_values() {
    let mut r = ScanResult::new(0x40, vec![1, 0, 0, 0]);
    assert_eq!(r.get_current_value(), &[1, 0, 0, 0]);
    r.update_value(vec![2, 0, 0, 0]);
    assert_eq!(r.previous_value, vec![1, 0, 0, 0]);
    assert_eq!(r.get_current_value(), &[2, 0, 0, 0]);
    assert_eq!(r.parse_value(ValueType::I32), Some(ScanValue::I32(2)));
}

#[test]
fn scan_results_bookkeeping() {
    let mut rs = ScanResults::new(ValueType::U8);
    assert!(rs.is_empty());
    rs.add_result(ScanResult::new(1, vec![5]));
    rs.increment_scan_count();
    assert_eq!(rs.len(), 1);
    assert_eq!(rs.scan_count, 1);
    rs.clear();
    assert_eq!(rs.len(), 0);
    assert_eq!(rs.scan_count, 0);
}

#[test]
fn scan_options_defaults() {
    let o = ScanOptions::new(ValueType::I64);
    assert_eq!(o.alignment, 8);
    assert!(o.readable_only);
    assert!(!o.writable_only);
    let o = o.with_alignment(16).writable_only();
    assert_eq!(o.alignment, 16);
    assert!(o.writable_only);
}
