use lightscan::filter::FilterEngine;
use lightscan::memory::{MemoryImage, MemoryRegion, MEM_COMMIT, PAGE_READONLY, PAGE_READWRITE};
use lightscan::process::{ModuleInfo, Process};
use lightscan::scan_result::ScanOptions;
use lightscan::scanner::{ScanError, Scanner};
use lightscan::simd::{scalar_scan_i32, scan_i32};
use lightscan::value::{ScanType, ScanValue, ValueType};
use lightscan::memory::MemoryError;

const BASE: usize = 0x10000;
const SIZE: usize = 0x10000;

fn image_with(base: usize, bytes: Vec<u8>, protection: u32) -> MemoryImage {
    let mut image = MemoryImage::new();
    let region = MemoryRegion::from_protection(base, bytes.len(), protection, MEM_COMMIT);
    assert!(image.add_region_with_bytes(region, bytes));
    image
}

fn scanner_over(image: MemoryImage) -> Scanner {
    Scanner::new(Process::new(1, "target".to_string(), image, Vec::<ModuleInfo>::new()))
}

fn put_i32(bytes: &mut [u8], off: usize, v: i32) {
    bytes[off..off + 4].copy_from_slice(&v.to_le_bytes());
}

fn as_i32(bytes: &[u8]) -> i32 {
    i32::from_le_bytes([bytes[0], bytes[1], bytes[2], bytes[3]])
}

#[test]
fn test_scalar_scan_i32() {
    let target = 42i32;
    let mut data = vec![0u8; 1024];
    let target_bytes = target.to_le_bytes();
    data[0..4].copy_from_slice(&target_bytes);
    data[100..104].copy_from_slice(&target_bytes);
    data[500..504].copy_from_slice(&target_bytes);

    let results = scalar_scan_i32(&data, target, 4);

    assert!(results.contains(&0));
    assert!(results.contains(&100));
    assert!(results.contains(&500));
}

#[test]
fn test_scan_i32_dispatcher() {
    let target = 12345i32;
    let mut data = vec![0u8; 2048];
    let target_bytes = target.to_le_bytes();
    data[0..4].copy_from_slice(&target_bytes);
    data[256..260].copy_from_slice(&target_bytes);

    let results = scan_i32(&data, target, 4);

    assert!(results.contains(&0));
    assert!(results.contains(&256));
}

#[test]
fn scalar_scan_skips_unaligned_and_keeps_order() {
    let mut data = vec![0u8; 64];
    put_i32(&mut data, 2, 7);
    put_i32(&mut data, 8, 7);
    put_i32(&mut data, 60, 7);
    assert_eq!(scalar_scan_i32(&data, 7, 4), vec![8, 60]);
    assert_eq!(scalar_scan_i32(&data, 7, 2), vec![2, 8, 60]);
}

#[test]
fn test_exact_match() {
    let value = ScanValue::I32(100);
    let target = ScanValue::I32(100);
    assert!(FilterEngine::matches(&value, None, Some(&target), ScanType::Exact));
}

#[test]
fn test_increased() {
    let current = ScanValue::I32(150);
    let previous = ScanValue::I32(100);
    assert!(FilterEngine::matches(&current, Some(&previous), None, ScanType::Increased));
}

#[test]
fn test_decreased() {
    let current = ScanValue::I32(50);
    let previous = ScanValue::I32(100);
    assert!(FilterEngine::matches(&current, Some(&previous), None, ScanType::Decreased));
}

#[test]
fn filter_needs_reference_or_history() {
    let v = ScanValue::I32(5);
    assert!(!FilterEngine::matches(&v, None, None, ScanType::Exact));
    assert!(!FilterEngine::matches(&v, None, None, ScanType::Changed));
    assert!(FilterEngine::matches(&v, None, None, ScanType::Unknown));
    assert!(FilterEngine::matches(&v, Some(&ScanValue::I32(6)), None, ScanType::Changed));
    assert!(FilterEngine::matches(&v, Some(&ScanValue::I32(5)), None, ScanType::Unchanged));
}

#[test]
fn test_scanner_creation() {
    let scanner = scanner_over(MemoryImage::new());
    assert_eq!(scanner.results().len(), 0);
}

#[test]
fn first_scan_finds_single_value() {
    let mut bytes = vec![0u8; SIZE];
    put_i32(&mut bytes, 0x1000, 1337);
    let mut scanner = scanner_over(image_with(BASE, bytes, PAGE_READWRITE));
    let options = ScanOptions::new(ValueType::I32).with_alignment(4).writable_only();
    let n = scanner.first_scan(&ScanValue::I32(1337), ScanType::Exact, &options).unwrap();
    assert_eq!(n, 1);
    let results = scanner.results();
    assert_eq!(results.results[0].address, BASE + 0x1000);
    assert_eq!(results.scan_count, 1);
    assert_eq!(results.value_type, ValueType::I32);
}

#[test]
fn next_scan_tracks_changed_value() {
    let mut bytes = vec![0u8; SIZE];
    put_i32(&mut bytes, 0x1000, 1337);
    let mut scanner = scanner_over(image_with(BASE, bytes, PAGE_READWRITE));
    let options = ScanOptions::new(ValueType::I32).with_alignment(4).writable_only();
    scanner.first_scan(&ScanValue::I32(1337), ScanType::Exact, &options).unwrap();
    scanner.write_value(BASE + 0x1000, &ScanValue::I32(4242)).unwrap();
    let n = scanner.next_scan(&ScanValue::I32(4242), ScanType::Exact);
    assert_eq!(n, 1);
    let r = &scanner.results().results[0];
    assert_eq!(as_i32(&r.previous_value), 1337);
    assert_eq!(as_i32(r.get_current_value()), 4242);
    assert_eq!(scanner.results().scan_count, 2);
}

#[test]
fn increased_then_decreased_narrows() {
    let mut bytes = vec![0u8; SIZE];
    for k in 0..1024 {
        put_i32(&mut bytes, k * 8, 100);
    }
    let mut scanner = scanner_over(image_with(BASE, bytes, PAGE_READWRITE));
    let options = ScanOptions::new(ValueType::I32);
    assert_eq!(scanner.first_scan(&ScanValue::I32(100), ScanType::Exact, &options).unwrap(), 1024);
    for k in 0..1024 {
        scanner.write_value(BASE + k * 8, &ScanValue::I32(101)).unwrap();
    }
    assert_eq!(scanner.next_scan(&ScanValue::I32(0), ScanType::Increased), 1024);
    for k in 0..512 {
        scanner.write_value(BASE + k * 16, &ScanValue::I32(100)).unwrap();
    }
    assert_eq!(scanner.next_scan(&ScanValue::I32(0), ScanType::Decreased), 512);
    let addresses: Vec<usize> = scanner.results().results.iter().map(|r| r.address).collect();
    let expected: Vec<usize> = (0..512).map(|k| BASE + k * 16).collect();
    assert_eq!(addresses, expected);
}

#[test]
fn unknown_scan_records_every_slot() {
    let n = 4096;
    let bytes: Vec<u8> = (0..n).map(|i| (i * 7 % 251) as u8).collect();
    let mut scanner = scanner_over(image_with(BASE, bytes.clone(), PAGE_READWRITE));
    let options = ScanOptions::new(ValueType::I32);
    let count = scanner.first_scan(&ScanValue::I32(0), ScanType::Unknown, &options).unwrap();
    assert_eq!(count, (n + 3) / 4);
    for (k, r) in scanner.results().results.iter().enumerate() {
        assert_eq!(r.address, BASE + 4 * k);
        assert_eq!(r.get_current_value(), &bytes[4 * k..4 * k + 4]);
        assert_eq!(r.previous_value, bytes[4 * k..4 * k + 4].to_vec());
    }
}

#[test]
fn first_scan_respects_region_filters() {
    let mut bytes = vec![0u8; 0x1000];
    put_i32(&mut bytes, 0x10, 9);
    let mut scanner = scanner_over(image_with(BASE, bytes, PAGE_READONLY));
    let options = ScanOptions::new(ValueType::I32).writable_only();
    assert_eq!(scanner.first_scan(&ScanValue::I32(9), ScanType::Exact, &options).unwrap(), 0);
    let options = ScanOptions::new(ValueType::I32);
    assert_eq!(scanner.first_scan(&ScanValue::I32(9), ScanType::Exact, &options).unwrap(), 1);
}

#[test]
fn alignment_overrides_only_upward() {
    assert_eq!(ScanOptions::new(ValueType::I32).with_alignment(2).alignment, 4);
    assert_eq!(ScanOptions::new(ValueType::I32).with_alignment(8).alignment, 8);
    assert_eq!(ScanOptions::new(ValueType::ByteArray(3)).with_alignment(1).alignment, 1);
}

#[test]
fn first_scan_rejects_zero_alignment() {
    let mut scanner = scanner_over(image_with(BASE, vec![0u8; 16], PAGE_READWRITE));
    let mut options = ScanOptions::new(ValueType::I32);
    options.alignment = 0;
    assert_eq!(
        scanner.first_scan(&ScanValue::I32(0), ScanType::Exact, &options),
        Err(ScanError::InvalidAlignment)
    );
}

#[test]
fn large_region_is_read_in_chunks() {
    let size = 0x10_0000 + 0x1000;
    let base = 0x100_0000;
    let mut image = MemoryImage::new();
    let region = MemoryRegion::from_protection(base, size, PAGE_READWRITE, MEM_COMMIT);
    assert!(image.add_region(region));
    let mut tail = vec![0u8; 0x1000];
    put_i32(&mut tail, 0x20, 55);
    assert!(image.add_block(base + 0x10_0000, tail));
    let mut scanner = scanner_over(image);
    let options = ScanOptions::new(ValueType::I32);
    assert_eq!(scanner.first_scan(&ScanValue::I32(55), ScanType::Exact, &options).unwrap(), 1);
    assert_eq!(scanner.results().results[0].address, base + 0x10_0020);
}

#[test]
fn next_scan_drops_unreadable_results() {
    let mut bytes = vec![0u8; 0x100];
    put_i32(&mut bytes, 0x10, 3);
    let mut scanner = scanner_over(image_with(BASE, bytes, PAGE_READWRITE));
    let options = ScanOptions::new(ValueType::I32);
    scanner.first_scan(&ScanValue::I32(3), ScanType::Exact, &options).unwrap();
    scanner.process_mut().memory.blocks.clear();
    assert_eq!(scanner.next_scan(&ScanValue::I32(3), ScanType::Unchanged), 0);
}

#[test]
fn reset_is_idempotent() {
    let mut bytes = vec![0u8; 0x100];
    put_i32(&mut bytes, 0x10, 3);
    let mut scanner = scanner_over(image_with(BASE, bytes, PAGE_READWRITE));
    let options = ScanOptions::new(ValueType::I32);
    scanner.first_scan(&ScanValue::I32(3), ScanType::Exact, &options).unwrap();
    scanner.reset();
    assert_eq!(scanner.results().len(), 0);
    assert_eq!(scanner.results().scan_count, 0);
    scanner.reset();
    assert_eq!(scanner.results().len(), 0);
    assert_eq!(scanner.results().scan_count, 0);
}

#[test]
fn read_and_write_errors() {
    let mut scanner = scanner_over(image_with(BASE, vec![0u8; 0x10], PAGE_READWRITE));
    assert_eq!(
        scanner.read_value(0x999999, ValueType::I32),
        Err(ScanError::Memory(MemoryError::Unreadable))
    );
    assert_eq!(
        scanner.write_value(0x999999, &ScanValue::I32(1)),
        Err(ScanError::Memory(MemoryError::Unwritable))
    );
    scanner.write_value(BASE + 4, &ScanValue::U16(0xBEEF)).unwrap();
    assert_eq!(scanner.read_value(BASE + 4, ValueType::U16), Ok(ScanValue::U16(0xBEEF)));
}

#[test]
fn results_page_is_clamped() {
    let mut bytes = vec![0u8; 0x100];
    for k in 0..10 {
        put_i32(&mut bytes, k * 4, 1);
    }
    let mut scanner = scanner_over(image_with(BASE, bytes, PAGE_READWRITE));
    scanner.first_scan(&ScanValue::I32(1), ScanType::Exact, &ScanOptions::new(ValueType::I32)).unwrap();
    let results = scanner.results();
    assert_eq!(results.get_page(8, 5).len(), 2);
    assert_eq!(results.get_page(20, 5).len(), 0);
    assert_eq!(results.get_page(2, 3)[0].address, BASE + 8);
}

#[test]
fn uncommitted_regions_are_not_scanned() {
    let mut bytes = vec![0u8; 0x100];
    put_i32(&mut bytes, 0x10, 77);
    let mut image = MemoryImage::new();
    let region = MemoryRegion::from_protection(BASE, 0x100, PAGE_READWRITE, 0x2000);
    assert!(image.add_region_with_bytes(region, bytes));
    let mut scanner = scanner_over(image);
    let n = scanner.first_scan(&ScanValue::I32(77), ScanType::Exact, &ScanOptions::new(ValueType::I32)).unwrap();
    assert_eq!(n, 0);
}
